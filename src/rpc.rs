//! Results of the node's control RPCs.
use vstd::prelude::*;
use vstd::string::StringExecFns;

verus! {

/// Allocator counters, in bytes and chunks.
#[derive(Clone, Copy, Debug, Default)]
pub struct MemInfoLocked {
    pub used: u64,
    pub free: u64,
    pub total: u64,
    pub locked: u64,
    pub chunks_used: u64,
    pub chunks_free: u64,
}

/// The result of `getmemoryinfo` in `stats` mode.
#[derive(Clone, Copy, Debug, Default)]
pub struct GetMemInfoStats {
    pub locked: MemInfoLocked,
}

/// The result of `getmemoryinfo`: counters, or the allocator's own report.
#[derive(Clone, Debug)]
pub enum GetMemInfoRes {
    Stats(GetMemInfoStats),
    MallocInfo(String),
}

/// An RPC call still running, and for how many microseconds.
#[derive(Clone, Debug)]
pub struct ActiveCommand {
    pub method: String,
    pub duration: u64,
}

/// The result of `getrpcinfo`.
#[derive(Clone, Debug)]
pub struct GetRpcInfoRes {
    pub active_commands: Vec<ActiveCommand>,
    pub logpath: String,
}

impl GetMemInfoStats {
    /// Statistics from the allocator's counters: bytes in use and free,
    /// bytes in mapped regions, and chunks in use and free. The total is
    /// what is in use plus what is free.
    pub fn from_counters(used: u64, free: u64, mapped: u64, chunks_used: u64, chunks_free: u64) -> (r:
        GetMemInfoStats)
        requires
            used + free <= u64::MAX,
        ensures
            r.locked.used == used,
            r.locked.free == free,
            r.locked.total == used + free,
            r.locked.locked == mapped,
            r.locked.chunks_used == chunks_used,
            r.locked.chunks_free == chunks_free,
    {
        GetMemInfoStats {
            locked: MemInfoLocked {
                used,
                free,
                total: used + free,
                locked: mapped,
                chunks_used,
                chunks_free,
            },
        }
    }
}

/// The allocator's counters as glibc's `mallinfo` reports them.
#[derive(Clone, Copy, Debug, Default)]
pub struct MallInfo {
    /// Bytes in use.
    pub uordblks: i32,
    /// Bytes free.
    pub fordblks: i32,
    /// Bytes in mapped regions.
    pub hblkhd: i32,
    /// Number of free chunks.
    pub ordblks: i32,
    /// Number of free fastbin blocks.
    pub smblks: i32,
}

/// Errors of the control RPCs.
#[derive(Clone, Copy, Debug, PartialEq, Eq, Structural)]
pub enum JsonRpcError {
    /// `getmemoryinfo` was asked for a mode other than `stats` and `mallocinfo`.
    InvalidMemInfoMode,
}

/// Relies on `str`'s `==`: the two strings hold the same characters.
#[verifier::external_body]
fn str_eq(a: &str, b: &str) -> (r: bool)
    ensures
        r == (a@ == b@),
{
    a == b
}

/// The character of the decimal digit `d`.
pub open spec fn digit_char(d: nat) -> char {
    seq!['0', '1', '2', '3', '4', '5', '6', '7', '8', '9'][d as int]
}

/// The decimal digits of `n`, without leading zeros.
pub open spec fn decimal_digits(n: nat) -> Seq<char>
    decreases n,
{
    if n < 10 {
        seq![digit_char(n)]
    } else {
        decimal_digits(n / 10).push(digit_char(n % 10))
    }
}

/// The decimal digits of `x`, with a leading `-` where it is negative.
pub open spec fn decimal_of(x: i64) -> Seq<char> {
    if x < 0 {
        seq!['-'] + decimal_digits((-(x as int)) as nat)
    } else {
        decimal_digits(x as nat)
    }
}

/// Relies on `i64::to_string`: the decimal representation.
#[verifier::external_body]
fn decimal(x: i64) -> (r: String)
    ensures
        r@ == decimal_of(x),
{
    x.to_string()
}

/// The XML report of `getmemoryinfo` in `mallocinfo` mode.
pub open spec fn malloc_report(info: MallInfo) -> Seq<char> {
    "<malloc version=\"2.0\"><heap nr=\"1\"><allocated>"@ + decimal_of(info.hblkhd as i64)
        + "</allocated><free>"@ + decimal_of(info.uordblks as i64) + "</free><total>"@ + decimal_of(
        info.fordblks as i64,
    ) + "</total><locked>"@ + decimal_of((info.uordblks as i64 + info.fordblks as i64) as i64)
        + "</locked><chunks nr=\""@ + decimal_of(info.hblkhd as i64) + "\"><used>"@ + decimal_of(
        info.ordblks as i64,
    ) + "</used><free>"@ + decimal_of(info.smblks as i64) + "</free></chunks></heap></malloc>"@
}

fn push_piece(out: &mut String, piece: &str)
    ensures
        final(out)@ == old(out)@ + piece@,
{
    out.append(piece);
}

fn push_number(out: &mut String, x: i64)
    ensures
        final(out)@ == old(out)@ + decimal_of(x),
{
    let d = decimal(x);
    out.append(d.as_str());
}

/// The `mallocinfo` report for `info`.
pub fn malloc_info_report(info: &MallInfo) -> (r: String)
    ensures
        r@ == malloc_report(*info),
{
    proof {
        reveal_strlit("<malloc version=\"2.0\"><heap nr=\"1\"><allocated>");
        reveal_strlit("</allocated><free>");
        reveal_strlit("</free><total>");
        reveal_strlit("</total><locked>");
        reveal_strlit("</locked><chunks nr=\"");
        reveal_strlit("\"><used>");
        reveal_strlit("</used><free>");
        reveal_strlit("</free></chunks></heap></malloc>");
    }
    let mut out = String::new();
    push_piece(&mut out, "<malloc version=\"2.0\"><heap nr=\"1\"><allocated>");
    push_number(&mut out, info.hblkhd as i64);
    push_piece(&mut out, "</allocated><free>");
    push_number(&mut out, info.uordblks as i64);
    push_piece(&mut out, "</free><total>");
    push_number(&mut out, info.fordblks as i64);
    push_piece(&mut out, "</total><locked>");
    push_number(&mut out, info.uordblks as i64 + info.fordblks as i64);
    push_piece(&mut out, "</locked><chunks nr=\"");
    push_number(&mut out, info.hblkhd as i64);
    push_piece(&mut out, "\"><used>");
    push_number(&mut out, info.ordblks as i64);
    push_piece(&mut out, "</used><free>");
    push_number(&mut out, info.smblks as i64);
    push_piece(&mut out, "</free></chunks></heap></malloc>");
    assert(out@ =~= malloc_report(*info));
    out
}

/// `getmemoryinfo`: in `stats` mode the counters (bytes in use and free,
/// their total, bytes mapped, chunks), in `mallocinfo` mode the XML report;
/// any other mode is refused.
pub fn get_memory_info(mode: &str, info: &MallInfo) -> (r: Result<GetMemInfoRes, JsonRpcError>)
    ensures
        mode@ == "stats"@ ==> (r matches Ok(GetMemInfoRes::Stats(s)) && s.locked.used == info.uordblks as u64
            && s.locked.free == info.fordblks as u64 && s.locked.total == (info.uordblks as i64
            + info.fordblks as i64) as u64 && s.locked.locked == info.hblkhd as u64
            && s.locked.chunks_used == info.ordblks as u64 && s.locked.chunks_free == info.smblks as u64),
        mode@ == "mallocinfo"@ ==> (r matches Ok(GetMemInfoRes::MallocInfo(x)) && x@ == malloc_report(*info)),
        mode@ != "stats"@ && mode@ != "mallocinfo"@ ==> r == Err::<GetMemInfoRes, JsonRpcError>(
            JsonRpcError::InvalidMemInfoMode,
        ),
{
    proof {
        reveal_strlit("stats");
        reveal_strlit("mallocinfo");
        assert("stats"@.len() != "mallocinfo"@.len());
    }
    if str_eq(mode, "stats") {
        let stats = GetMemInfoStats {
            locked: MemInfoLocked {
                used: info.uordblks as u64,
                free: info.fordblks as u64,
                total: (info.uordblks as i64 + info.fordblks as i64) as u64,
                locked: info.hblkhd as u64,
                chunks_used: info.ordblks as u64,
                chunks_free: info.smblks as u64,
            },
        };
        Ok(GetMemInfoRes::Stats(stats))
    } else if str_eq(mode, "mallocinfo") {
        Ok(GetMemInfoRes::MallocInfo(malloc_info_report(info)))
    } else {
        Err(JsonRpcError::InvalidMemInfoMode)
    }
}

/// The part of the RPC server that keeps time: when it started, in seconds.
#[derive(Clone, Copy, Debug)]
pub struct RpcImpl {
    pub start_time: u64,
}

impl RpcImpl {
    /// A server that started at `start_time`.
    pub fn new(start_time: u64) -> (r: RpcImpl)
        ensures
            r.start_time == start_time,
    {
        RpcImpl { start_time }
    }

    /// Seconds the server has run at time `now`; a clock that reads earlier
    /// than the start counts as no time.
    pub fn uptime(&self, now: u64) -> (r: u64)
        ensures
            r == if now >= self.start_time {
                now - self.start_time
            } else {
                0
            },
    {
        if now >= self.start_time {
            now - self.start_time
        } else {
            0
        }
    }
}

} // verus!
