//! Modbus input-register service: each thermometer occupies two consecutive
//! input registers, the high half of its 32-bit reading first.
use vstd::prelude::*;

verus! {

/// The Modbus requests that the service tells apart.
pub enum ModbusRequest {
    /// Function 0x04: read `count` input registers starting at `address`.
    ReadInputRegisters(u16, u16),
    /// Any other function.
    Other,
}

/// The Modbus exception responses that the service gives.
#[derive(Clone, Copy, Debug, PartialEq, Eq, Structural)]
pub enum Exception {
    IllegalFunction,
    IllegalDataAddress,
    ServerDeviceFailure,
}

/// A contiguous run of thermometers, by their position in the registry:
/// `start` included, `end` excluded.
#[derive(Clone, Copy, Debug, PartialEq, Eq, Structural)]
pub struct SensorQuery {
    pub start: usize,
    pub end: usize,
}

/// Why the thermometer side could not answer a query.
#[derive(Clone, Copy, Debug, PartialEq, Eq, Structural)]
pub enum SensorError {
    /// The thermometer side refused a position of the query.
    Refused,
    /// A thermometer did not deliver a reading.
    ReadFailed,
}

/// What came back from the thermometer side for one query.
pub enum SensorReply {
    /// One raw 32-bit reading per thermometer of the query, in order.
    Readings(Vec<u32>),
    /// The thermometer side refused or failed the query.
    Failed(SensorError),
    /// The query could not be handed over, or no answer came back.
    Unavailable,
}

/// What a request asks of the thermometers, or the exception it is answered with.
pub open spec fn spec_plan(request: ModbusRequest) -> Result<SensorQuery, Exception> {
    match request {
        ModbusRequest::ReadInputRegisters(address, count) => {
            if address % 2 != 0 || count % 2 != 0 {
                Err(Exception::IllegalDataAddress)
            } else {
                Ok(SensorQuery {
                    start: (address / 2) as usize,
                    end: (address / 2 + count / 2) as usize,
                })
            }
        },
        ModbusRequest::Other => Err(Exception::IllegalFunction),
    }
}

/// Decides what a request asks of the thermometers: a read of input
/// registers must start on an even register and cover whole thermometers.
pub fn plan_read(request: &ModbusRequest) -> (r: Result<SensorQuery, Exception>)
    ensures
        r == spec_plan(*request),
{
    match request {
        ModbusRequest::ReadInputRegisters(address, count) => {
            if *address % 2 != 0 || *count % 2 != 0 {
                Err(Exception::IllegalDataAddress)
            } else {
                let start = (*address / 2) as usize;
                let end = start + (*count / 2) as usize;
                Ok(SensorQuery { start, end })
            }
        },
        ModbusRequest::Other => Err(Exception::IllegalFunction),
    }
}

/// The high (`half == 0`) or low (`half == 1`) 16 bits of a raw reading.
pub open spec fn half_of(reading: u32, half: int) -> u16 {
    if half == 0 {
        (reading / 65536) as u16
    } else {
        (reading % 65536) as u16
    }
}

/// The registers that carry `readings`: two per reading, high half first.
pub open spec fn registers_of(readings: Seq<u32>) -> Seq<u16> {
    Seq::new(2 * readings.len(), |k: int| half_of(readings[k / 2], k % 2))
}

/// Lays raw readings out over input registers, two per reading, the high
/// half first (big-endian word order).
pub fn encode_readings(readings: &Vec<u32>) -> (r: Vec<u16>)
    ensures
        r@ == registers_of(readings@),
        r@.len() == 2 * readings@.len(),
        forall|i: int|
            0 <= i < readings@.len() ==> #[trigger] r@[2 * i] as int * 65536 + r@[2 * i + 1] as int
                == readings@[i] as int && r@[2 * i] as int == readings@[i] as int / 65536,
{
    let mut registers: Vec<u16> = Vec::new();
    let mut i: usize = 0;
    while i < readings.len()
        invariant
            i <= readings.len(),
            registers@.len() == 2 * i,
            forall|k: int| 0 <= k < 2 * i ==> registers@[k] == half_of(readings@[k / 2], k % 2),
        decreases readings.len() - i,
    {
        let reading = readings[i];
        registers.push((reading / 65536) as u16);
        registers.push((reading % 65536) as u16);
        assert forall|k: int| 0 <= k < 2 * (i + 1) implies registers@[k] == half_of(
            readings@[k / 2],
            k % 2,
        ) by {
            if k >= 2 * i {
                assert(k / 2 == i as int);
            }
        }
        i += 1;
    }
    assert(registers@ =~= registers_of(readings@));
    proof {
        lemma_registers_carry_readings_high_first(readings@);
    }
    registers
}

/// The exception that answers a failure of the thermometer side.
pub open spec fn spec_exception_for(error: SensorError) -> Exception {
    match error {
        SensorError::Refused => Exception::IllegalDataAddress,
        SensorError::ReadFailed => Exception::ServerDeviceFailure,
    }
}

/// Turns what the thermometer side answered into the register values of the
/// response, or the exception that answers the request.
pub fn finish_read(reply: SensorReply) -> (r: Result<Vec<u16>, Exception>)
    ensures
        match reply {
            SensorReply::Readings(readings) => r matches Ok(registers) && registers@ == registers_of(
                readings@,
            ),
            SensorReply::Failed(error) => r == Err::<Vec<u16>, Exception>(spec_exception_for(error)),
            SensorReply::Unavailable => r == Err::<Vec<u16>, Exception>(
                Exception::ServerDeviceFailure,
            ),
        },
{
    match reply {
        SensorReply::Readings(readings) => Ok(encode_readings(&readings)),
        SensorReply::Failed(SensorError::Refused) => Err(Exception::IllegalDataAddress),
        SensorReply::Failed(SensorError::ReadFailed) => Err(Exception::ServerDeviceFailure),
        SensorReply::Unavailable => Err(Exception::ServerDeviceFailure),
    }
}

impl Exception {
    /// The exception code that Modbus puts on the wire for this exception.
    pub fn code(&self) -> (c: u8)
        ensures
            c == match *self {
                Exception::IllegalFunction => 1u8,
                Exception::IllegalDataAddress => 2u8,
                Exception::ServerDeviceFailure => 4u8,
            },
    {
        match self {
            Exception::IllegalFunction => 1,
            Exception::IllegalDataAddress => 2,
            Exception::ServerDeviceFailure => 4,
        }
    }
}

/// The value of input register `k` of the device, given one raw reading per
/// thermometer in registry order.
pub open spec fn input_register(readings: Seq<u32>, k: int) -> u16 {
    half_of(readings[k / 2], k % 2)
}

/// A read of input registers that the service accepts is answered, once the
/// thermometers of the query have delivered their readings, with exactly
/// `count` registers, and register `j` of the answer is input register
/// `address + j` of the device: a window onto one fixed register map.
pub proof fn lemma_read_is_window_of_register_map(address: u16, count: u16, readings: Seq<u32>)
    requires
        spec_plan(ModbusRequest::ReadInputRegisters(address, count)) is Ok,
        spec_plan(ModbusRequest::ReadInputRegisters(address, count))->Ok_0.end <= readings.len(),
    ensures
        ({
            let q = spec_plan(ModbusRequest::ReadInputRegisters(address, count))->Ok_0;
            let answer = registers_of(readings.subrange(q.start as int, q.end as int));
            &&& answer.len() == count
            &&& forall|j: int|
                0 <= j < count ==> #[trigger] answer[j] == input_register(readings, address + j)
        }),
{
    let q = spec_plan(ModbusRequest::ReadInputRegisters(address, count))->Ok_0;
    let window = readings.subrange(q.start as int, q.end as int);
    let answer = registers_of(window);
    assert forall|j: int| 0 <= j < count implies #[trigger] answer[j] == input_register(
        readings,
        address + j,
    ) by {
        assert((address + j) / 2 == address / 2 + j / 2);
        assert((address + j) % 2 == j % 2);
    }
}

/// Turns the outcomes of reading the thermometers of a query, one per
/// thermometer in order (`None` where a thermometer delivered no reading),
/// into the reply: the readings, or `ReadFailed` at the first failure.
pub fn reply_from_readings(outcomes: &Vec<Option<u32>>) -> (r: SensorReply)
    ensures
        (forall|i: int| 0 <= i < outcomes@.len() ==> #[trigger] outcomes@[i] is Some) ==> (r matches SensorReply::Readings(v) && v@.len() == outcomes@.len()
            && forall|i: int| 0 <= i < outcomes@.len() ==> Some(#[trigger] v@[i]) == outcomes@[i]),
        !(forall|i: int| 0 <= i < outcomes@.len() ==> #[trigger] outcomes@[i] is Some) ==> r == SensorReply::Failed(SensorError::ReadFailed),
{
    let mut readings: Vec<u32> = Vec::new();
    let mut i: usize = 0;
    while i < outcomes.len()
        invariant
            i <= outcomes@.len(),
            readings@.len() == i,
            forall|k: int| 0 <= k < i ==> Some(#[trigger] readings@[k]) == outcomes@[k],
            forall|k: int| 0 <= k < i ==> #[trigger] outcomes@[k] is Some,
        decreases outcomes@.len() - i,
    {
        match outcomes[i] {
            Some(reading) => readings.push(reading),
            None => return SensorReply::Failed(SensorError::ReadFailed),
        }
        i += 1;
    }
    SensorReply::Readings(readings)
}

/// A read of input registers is accepted exactly when its first register
/// and its number of registers are both even; it then names the thermometers
/// whose registers it covers: thermometer `k` holds registers `2k` and
/// `2k + 1`, so the query starts at `address / 2` and names `count / 2`
/// thermometers. Otherwise it is refused with `IllegalDataAddress`.
pub proof fn lemma_plan_accepts_exactly_even_windows(address: u16, count: u16)
    ensures
        (address % 2 == 0 && count % 2 == 0) ==> (spec_plan(
            ModbusRequest::ReadInputRegisters(address, count),
        ) matches Ok(q) && 2 * q.start == address && 2 * (q.end - q.start) == count
            && q.start <= q.end),
        (address % 2 == 1 || count % 2 == 1) ==> spec_plan(
            ModbusRequest::ReadInputRegisters(address, count),
        ) == Err::<SensorQuery, Exception>(Exception::IllegalDataAddress),
        spec_plan(ModbusRequest::Other) == Err::<SensorQuery, Exception>(Exception::IllegalFunction),
{
}

/// Each reading is carried whole by its two registers, the first holding the
/// more significant 16 bits: `registers[2i] * 65536 + registers[2i + 1]`
/// is reading `i`, and there are exactly two registers per reading.
pub proof fn lemma_registers_carry_readings_high_first(readings: Seq<u32>)
    ensures
        registers_of(readings).len() == 2 * readings.len(),
        forall|i: int|
            0 <= i < readings.len() ==> {
                &&& #[trigger] registers_of(readings)[2 * i] as int == readings[i] as int / 65536
                &&& registers_of(readings)[2 * i + 1] as int == readings[i] as int % 65536
                &&& registers_of(readings)[2 * i] as int * 65536 + registers_of(readings)[2 * i
                    + 1] as int == readings[i] as int
            },
{
    assert forall|i: int| 0 <= i < readings.len() implies {
        &&& #[trigger] registers_of(readings)[2 * i] as int == readings[i] as int / 65536
        &&& registers_of(readings)[2 * i + 1] as int == readings[i] as int % 65536
        &&& registers_of(readings)[2 * i] as int * 65536 + registers_of(readings)[2 * i
            + 1] as int == readings[i] as int
    } by {
        assert((2 * i) / 2 == i && (2 * i) % 2 == 0);
        assert((2 * i + 1) / 2 == i && (2 * i + 1) % 2 == 1);
        let r = readings[i] as int;
        assert(0 <= r / 65536 < 65536);
    }
}

/// A failure of the thermometer side is answered with the exception that
/// names its cause: a refused position is an illegal data address, a failed
/// reading (or no answer at all) a failure of the device.
pub proof fn lemma_failures_are_answered_by_cause()
    ensures
        spec_exception_for(SensorError::Refused) == Exception::IllegalDataAddress,
        spec_exception_for(SensorError::ReadFailed) == Exception::ServerDeviceFailure,
{
}

} // verus!
