use relay_board::modbus::{respond, ExceptionCode, Request, Response, BLINK_MS};

fn success() -> Vec<Result<u64, u64>> {
    vec![Ok(BLINK_MS)]
}

#[test]
fn read_coils_in_range() {
    let reply = respond(&Request::ReadCoils(0, 2));
    assert_eq!(reply.blinks, success());
    assert_eq!(reply.result, Ok(Response::ReadCoils(vec![false])));
    let reply = respond(&Request::ReadCoils(1, 1));
    assert_eq!(reply.result, Ok(Response::ReadCoils(vec![false])));
}

#[test]
fn read_no_coils() {
    let reply = respond(&Request::ReadCoils(1, 0));
    assert_eq!(reply.blinks, success());
    assert_eq!(reply.result, Ok(Response::ReadCoils(vec![])));
}

#[test]
fn read_coils_past_the_board() {
    for (address, count) in [(2, 0), (0, 3), (1, 2), (100, 1), (u16::MAX, u16::MAX)] {
        let reply = respond(&Request::ReadCoils(address, count));
        assert_eq!(reply.blinks, success());
        assert_eq!(reply.result, Err(ExceptionCode::IllegalDataAddress));
    }
}

#[test]
fn write_single_coil_echoes() {
    let reply = respond(&Request::WriteSingleCoil(1, true));
    assert_eq!(reply.blinks, success());
    assert_eq!(reply.result, Ok(Response::WriteSingleCoil(1, true)));
    let reply = respond(&Request::WriteSingleCoil(0, false));
    assert_eq!(reply.result, Ok(Response::WriteSingleCoil(0, false)));
}

#[test]
fn write_single_coil_past_the_board() {
    let reply = respond(&Request::WriteSingleCoil(2, true));
    assert_eq!(reply.blinks, success());
    assert_eq!(reply.result, Err(ExceptionCode::IllegalDataAddress));
}

#[test]
fn write_multiple_coils() {
    let reply = respond(&Request::WriteMultipleCoils(0, vec![true, false]));
    assert_eq!(reply.blinks, success());
    assert_eq!(reply.result, Ok(Response::WriteMultipleCoils(0, 2)));
    let reply = respond(&Request::WriteMultipleCoils(1, vec![true]));
    assert_eq!(reply.result, Ok(Response::WriteMultipleCoils(1, 1)));
}

#[test]
fn write_no_coils_answers_as_a_read() {
    let reply = respond(&Request::WriteMultipleCoils(1, vec![]));
    assert_eq!(reply.result, Ok(Response::ReadCoils(vec![])));
}

#[test]
fn write_multiple_coils_past_the_board() {
    let reply = respond(&Request::WriteMultipleCoils(1, vec![true, true]));
    assert_eq!(reply.result, Err(ExceptionCode::IllegalDataAddress));
    let reply = respond(&Request::WriteMultipleCoils(2, vec![]));
    assert_eq!(reply.result, Err(ExceptionCode::IllegalDataAddress));
}

#[test]
fn other_functions_are_illegal() {
    let reply = respond(&Request::Other);
    assert_eq!(reply.blinks, vec![Ok(BLINK_MS), Err(BLINK_MS)]);
    assert_eq!(reply.result, Err(ExceptionCode::IllegalFunction));
}
