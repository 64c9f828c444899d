use vstd::prelude::*;

use crate::led::Request as LedRequest;

verus! {

/// Number of relay coils on the board; their addresses are `0` and `1`.
pub const COILS: u16 = 2;

/// How long the LED flashes for each request, in milliseconds.
pub const BLINK_MS: u64 = 100;

/// A Modbus request, as far as the relay board tells requests apart.
#[derive(Debug, PartialEq, Eq)]
pub enum Request {
    /// Read `count` coils from `address` on.
    ReadCoils(u16, u16),
    /// Write one coil.
    WriteSingleCoil(u16, bool),
    /// Write consecutive coils from `address` on.
    WriteMultipleCoils(u16, Vec<bool>),
    /// Any other function code.
    Other,
}

/// A Modbus response of the relay board.
#[derive(Debug, PartialEq, Eq)]
pub enum Response {
    /// The coil values read.
    ReadCoils(Vec<bool>),
    /// The coil written and its new value.
    WriteSingleCoil(u16, bool),
    /// The first coil written and how many were written.
    WriteMultipleCoils(u16, u16),
}

/// The Modbus exceptions that the relay board answers with.
#[derive(Clone, Copy, Debug, PartialEq, Eq, Structural)]
pub enum ExceptionCode {
    IllegalFunction,
    IllegalDataAddress,
    ServerDeviceFailure,
}

/// A request with its coil values as a sequence.
pub enum RequestView {
    ReadCoils(u16, u16),
    WriteSingleCoil(u16, bool),
    WriteMultipleCoils(u16, Seq<bool>),
    Other,
}

/// A response with its coil values as a sequence.
pub enum ResponseView {
    ReadCoils(Seq<bool>),
    WriteSingleCoil(u16, bool),
    WriteMultipleCoils(u16, u16),
}

impl View for Request {
    type V = RequestView;

    open spec fn view(&self) -> RequestView {
        match self {
            Request::ReadCoils(address, count) => RequestView::ReadCoils(*address, *count),
            Request::WriteSingleCoil(address, value) => RequestView::WriteSingleCoil(
                *address,
                *value,
            ),
            Request::WriteMultipleCoils(address, values) => RequestView::WriteMultipleCoils(
                *address,
                values@,
            ),
            Request::Other => RequestView::Other,
        }
    }
}

impl View for Response {
    type V = ResponseView;

    open spec fn view(&self) -> ResponseView {
        match self {
            Response::ReadCoils(values) => ResponseView::ReadCoils(values@),
            Response::WriteSingleCoil(address, value) => ResponseView::WriteSingleCoil(
                *address,
                *value,
            ),
            Response::WriteMultipleCoils(address, count) => ResponseView::WriteMultipleCoils(
                *address,
                *count,
            ),
        }
    }
}

/// What the board answers to one request, and how the LED flashes for it.
#[derive(Debug)]
pub struct Reply {
    /// The flashes to show, in order.
    pub blinks: Vec<LedRequest>,
    /// The response, or the exception that refuses the request.
    pub result: Result<Response, ExceptionCode>,
}

/// The result of a reply with its response taken by its view.
pub open spec fn result_view(result: Result<Response, ExceptionCode>) -> Result<
    ResponseView,
    ExceptionCode,
> {
    match result {
        Ok(response) => Ok(response@),
        Err(code) => Err(code),
    }
}

/// The coils `address .. address + count` all exist.
pub open spec fn coils_exist(address: int, count: int) -> bool {
    address <= 1 && address + count <= COILS
}

/// The number of coils that a write of `values` names: the length taken
/// modulo `2^16`, as the 16-bit quantity field holds it.
pub open spec fn quantity(values: Seq<bool>) -> u16 {
    values.len() as u16
}

/// The requests that the board handles without a 16-bit overflow when it
/// adds the address of the first coil and the number of coils.
pub open spec fn request_admissible(request: RequestView) -> bool {
    match request {
        RequestView::ReadCoils(address, count) => address <= 1 ==> address + count <= u16::MAX,
        RequestView::WriteMultipleCoils(address, values) => address <= 1 ==> address + quantity(
            values,
        ) <= u16::MAX,
        _ => true,
    }
}

/// The function code of the request is one that the board serves.
pub open spec fn supported(request: RequestView) -> bool {
    !(request is Other)
}

/// The answer to a request.
pub open spec fn answer(request: RequestView) -> Result<ResponseView, ExceptionCode> {
    match request {
        RequestView::ReadCoils(address, count) => if !coils_exist(address as int, count as int) {
            Err(ExceptionCode::IllegalDataAddress)
        } else if count == 0 {
            Ok(ResponseView::ReadCoils(Seq::empty()))
        } else {
            Ok(ResponseView::ReadCoils(seq![false]))
        },
        RequestView::WriteSingleCoil(address, value) => if address > 1 {
            Err(ExceptionCode::IllegalDataAddress)
        } else {
            Ok(ResponseView::WriteSingleCoil(address, value))
        },
        RequestView::WriteMultipleCoils(address, values) => {
            let count = quantity(values);
            if !coils_exist(address as int, count as int) {
                Err(ExceptionCode::IllegalDataAddress)
            } else if count == 0 {
                Ok(ResponseView::ReadCoils(Seq::empty()))
            } else {
                Ok(ResponseView::WriteMultipleCoils(address, count))
            }
        },
        RequestView::Other => Err(ExceptionCode::IllegalFunction),
    }
}

/// The flashes for a request: a success flash for every request, and a
/// failure flash after it for a function that the board does not serve.
pub open spec fn blinks_for(request: RequestView) -> Seq<LedRequest> {
    if supported(request) {
        seq![Ok(BLINK_MS)]
    } else {
        seq![Ok(BLINK_MS), Err(BLINK_MS)]
    }
}

/// Answers one Modbus request of the relay service.
pub fn respond(request: &Request) -> (reply: Reply)
    requires
        request_admissible(request@),
    ensures
        result_view(reply.result) == answer(request@),
        reply.blinks@ == blinks_for(request@),
{
    let mut blinks: Vec<LedRequest> = Vec::new();
    blinks.push(Ok(BLINK_MS));
    let result: Result<Response, ExceptionCode> = match request {
        Request::ReadCoils(address, count) => {
            if *address > 1 || *address + *count > COILS {
                Err(ExceptionCode::IllegalDataAddress)
            } else if *count == 0 {
                let values: Vec<bool> = Vec::new();
                assert(values@ =~= Seq::<bool>::empty());
                Ok(Response::ReadCoils(values))
            } else {
                let values: Vec<bool> = vec![false];
                assert(values@ =~= seq![false]);
                Ok(Response::ReadCoils(values))
            }
        },
        Request::WriteSingleCoil(address, value) => {
            if *address > 1 {
                Err(ExceptionCode::IllegalDataAddress)
            } else {
                Ok(Response::WriteSingleCoil(*address, *value))
            }
        },
        Request::WriteMultipleCoils(address, values) => {
            let count: u16 = #[verifier::truncate] (values.len() as u16);
            if *address > 1 || *address + count > COILS {
                Err(ExceptionCode::IllegalDataAddress)
            } else if count == 0 {
                let values: Vec<bool> = Vec::new();
                assert(values@ =~= Seq::<bool>::empty());
                Ok(Response::ReadCoils(values))
            } else {
                Ok(Response::WriteMultipleCoils(*address, count))
            }
        },
        Request::Other => {
            blinks.push(Err(BLINK_MS));
            Err(ExceptionCode::IllegalFunction)
        },
    };
    proof {
        assert(blinks@ =~= blinks_for(request@));
    }
    Reply { blinks, result }
}

/// The board serves only what lies on its own coils: a request that gets a
/// response names coils that all exist.
pub proof fn lemma_served_requests_name_existing_coils(request: RequestView)
    requires
        answer(request) is Ok,
    ensures
        match request {
            RequestView::ReadCoils(address, count) => coils_exist(address as int, count as int),
            RequestView::WriteSingleCoil(address, _) => address < COILS,
            RequestView::WriteMultipleCoils(address, values) => coils_exist(
                address as int,
                quantity(values) as int,
            ),
            RequestView::Other => false,
        },
{
}

/// A request that names a coil past the board is refused as an illegal data
/// address.
pub proof fn lemma_missing_coils_refused(request: RequestView)
    requires
        match request {
            RequestView::ReadCoils(address, count) => !coils_exist(address as int, count as int),
            RequestView::WriteSingleCoil(address, _) => address >= COILS,
            RequestView::WriteMultipleCoils(address, values) => !coils_exist(
                address as int,
                quantity(values) as int,
            ),
            RequestView::Other => false,
        },
    ensures
        answer(request) == Err::<ResponseView, ExceptionCode>(ExceptionCode::IllegalDataAddress),
{
}

/// Every request flashes the LED for success first; a function that the
/// board does not serve, and only such a one, is refused as illegal and adds
/// a failure flash.
pub proof fn lemma_flashes_follow_the_answer(request: RequestView)
    ensures
        blinks_for(request).len() >= 1,
        blinks_for(request)[0] == Ok::<u64, u64>(BLINK_MS),
        !supported(request) <==> answer(request) == Err::<ResponseView, ExceptionCode>(
            ExceptionCode::IllegalFunction,
        ),
        !supported(request) <==> blinks_for(request) =~= seq![Ok(BLINK_MS), Err(BLINK_MS)],
{
}

/// Writing a single coil that exists echoes the request.
pub proof fn lemma_single_write_echoes(address: u16, value: bool)
    requires
        address < COILS,
    ensures
        answer(RequestView::WriteSingleCoil(address, value)) == Ok::<ResponseView, ExceptionCode>(
            ResponseView::WriteSingleCoil(address, value),
        ),
{
}

/// Reading coils: a read of coils that all lie among coils 0 and 1 is
/// served, with one `false` when it names at least one coil and with nothing
/// when it names none; a read that reaches past coil 1 is refused as an
/// illegal data address.
pub proof fn lemma_read_coils(address: u16, count: u16)
    ensures
        address <= 1 && address + count <= 2 && count > 0 ==> answer(
            RequestView::ReadCoils(address, count),
        ) == Ok::<ResponseView, ExceptionCode>(ResponseView::ReadCoils(seq![false])),
        address <= 1 && count == 0 ==> answer(RequestView::ReadCoils(address, count)) == Ok::<
            ResponseView,
            ExceptionCode,
        >(ResponseView::ReadCoils(Seq::empty())),
        address > 1 || address + count > 2 ==> answer(RequestView::ReadCoils(address, count))
            == Err::<ResponseView, ExceptionCode>(ExceptionCode::IllegalDataAddress),
        answer(RequestView::ReadCoils(address, count)) is Ok <==> (address <= 1 && address + count
            <= 2),
{
}

/// Writing one coil: coils 0 and 1 are written and the response echoes the
/// address and the value; any other address is refused as an illegal data
/// address.
pub proof fn lemma_write_single_coil(address: u16, value: bool)
    ensures
        address <= 1 ==> answer(RequestView::WriteSingleCoil(address, value)) == Ok::<
            ResponseView,
            ExceptionCode,
        >(ResponseView::WriteSingleCoil(address, value)),
        address > 1 ==> answer(RequestView::WriteSingleCoil(address, value)) == Err::<
            ResponseView,
            ExceptionCode,
        >(ExceptionCode::IllegalDataAddress),
{
}

/// Writing several coils: a write of one or more values that all land on
/// coils 0 and 1 is answered with its own start address and the number of
/// values it carries; a write of no values from coil 0 or 1 is answered as an
/// empty read; a write that reaches past coil 1 is refused as an illegal data
/// address.
pub proof fn lemma_write_multiple_coils(address: u16, values: Seq<bool>)
    ensures
        address <= 1 && address + values.len() <= 2 && values.len() > 0 ==> answer(
            RequestView::WriteMultipleCoils(address, values),
        ) == Ok::<ResponseView, ExceptionCode>(
            ResponseView::WriteMultipleCoils(address, values.len() as u16),
        ),
        address <= 1 && values.len() == 0 ==> answer(
            RequestView::WriteMultipleCoils(address, values),
        ) == Ok::<ResponseView, ExceptionCode>(ResponseView::ReadCoils(Seq::empty())),
        address > 1 || (address + values.len() > 2 && values.len() < 0x10000) ==> answer(
            RequestView::WriteMultipleCoils(address, values),
        ) == Err::<ResponseView, ExceptionCode>(ExceptionCode::IllegalDataAddress),
{
    if values.len() < 0x10000 {
        assert(values.len() as u16 == values.len());
    }
}

/// The flashes of a reply: one success flash of 100 ms for every request,
/// followed by one failure flash of 100 ms exactly for a function other than
/// reading coils, writing one coil or writing several coils, which alone is
/// refused as an illegal function.
pub proof fn lemma_flashes_and_illegal_functions(request: RequestView)
    ensures
        request is Other ==> blinks_for(request) == seq![Ok::<u64, u64>(100), Err::<u64, u64>(100)],
        !(request is Other) ==> blinks_for(request) == seq![Ok::<u64, u64>(100)],
        request is Other <==> answer(request) == Err::<ResponseView, ExceptionCode>(
            ExceptionCode::IllegalFunction,
        ),
{
}

/// The requests that the board handles are all but those whose 16-bit sum
/// of first coil and coil count overflows: every request of another
/// function, every write of one coil, and every read or write of several
/// coils that starts past coil 1 or whose sum stays within 65535.
pub proof fn lemma_admissible_requests(request: RequestView)
    ensures
        match request {
            RequestView::ReadCoils(address, count) => request_admissible(request) <==> (address > 1
                || address + count <= 65535),
            RequestView::WriteMultipleCoils(address, values) => request_admissible(request) <==> (
            address > 1 || address + (values.len() as u16) <= 65535),
            _ => request_admissible(request),
        },
{
}

} // verus!
