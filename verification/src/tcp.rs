//! Where the server listens, and how its connections are set up.

use crate::bytes::bytes_eq;
use crate::text::{
    decimal_text, number_in, number_up_to, parse_number, parse_up_to, push_decimal, text_bytes,
};
use vstd::prelude::*;
use vstd::string::{StrSliceExecFns, StringExecFns};

verus! {

// ---------------------------------------------------------------------------
// Addresses
// ---------------------------------------------------------------------------

/// "127.88."
pub open spec fn host_prefix() -> Seq<char> {
    seq!['1', '2', '7', '.', '8', '8', '.']
}

/// The address of a host of that number.
pub open spec fn host_ip(hostnum: u16) -> Seq<char> {
    host_prefix() + decimal_text((hostnum / 256) as nat) + seq!['.'] + decimal_text(
        (hostnum % 256) as nat,
    )
}

/// The address of a host of that number.
pub fn generate_host_ip(hostnum: u16) -> (r: String)
    ensures
        r@ == host_ip(hostnum),
{
    proof {
        reveal_strlit("127.88.");
        reveal_strlit(".");
        assert("127.88."@ =~= host_prefix());
        assert("."@ =~= seq!['.']);
    }
    let mut s = String::from_str("127.88.");
    push_decimal(&mut s, (hostnum / 256) as u64);
    s.append(".");
    push_decimal(&mut s, (hostnum % 256) as u64);
    s
}

/// Why an address cannot be listened at.
#[derive(Clone, Copy, Debug, PartialEq, Eq, Structural)]
pub enum BindFault {
    /// There is no port in it.
    NoPort,
    /// What stands behind the colon is not a port.
    BadPort,
}

/// Where the first of a character is, from `from` on.
pub open spec fn first_of(s: Seq<u8>, c: u8, from: int) -> Option<int>
    decreases s.len() - from,
{
    if from < 0 || from >= s.len() {
        None
    } else if s[from] == c {
        Some(from)
    } else {
        first_of(s, c, from + 1)
    }
}

/// The length of the host and the port of an address.
pub open spec fn bind_parts(s: Seq<u8>) -> Result<(int, u16), BindFault> {
    match first_of(s, 58, 0) {
        None => Err(BindFault::NoPort),
        Some(i) => match number_in(s.skip(i + 1)) {
            Some(p) => if p <= u16::MAX {
                Ok((i, p as u16))
            } else {
                Err(BindFault::BadPort)
            },
            None => Err(BindFault::BadPort),
        },
    }
}

/// Splits an address of the form "host:port" into the length of the host and the port.
pub fn split_address(addr: &str) -> (r: Result<(usize, u16), BindFault>)
    ensures
        match bind_parts(text_bytes(addr@)) {
            Ok((i, p)) => r == Ok::<(usize, u16), BindFault>((i as usize, p)) && i
                <= usize::MAX,
            Err(e) => r == Err::<(usize, u16), BindFault>(e),
        },
{
    let b = addr.as_bytes();
    let ghost s = b@;
    let mut i: usize = 0;
    while i < b.len() && b[i] != 58
        invariant
            i <= b@.len(),
            b@ == s,
            first_of(s, 58, 0) == first_of(s, 58, i as int),
        decreases b@.len() - i,
    {
        i += 1;
    }
    if i >= b.len() {
        return Err(BindFault::NoPort);
    }
    let port = vstd::slice::slice_subrange(b, i + 1, b.len());
    assert(port@ =~= s.skip(i + 1));
    match parse_number(port) {
        Some(p) => {
            if p <= 0xffff {
                Ok((i, p as u16))
            } else {
                Err(BindFault::BadPort)
            }
        },
        None => Err(BindFault::BadPort),
    }
}

/// Whether a host is to be found by trying: "auto".
pub fn is_auto(host: &[u8]) -> (r: bool)
    ensures
        r == (host@ == seq![97u8, 117u8, 116u8, 111u8]),
{
    let auto: [u8; 4] = [97, 117, 116, 111];
    assert(auto@ =~= seq![97u8, 117u8, 116u8, 111u8]);
    bytes_eq(host, vstd::array::array_as_slice(&auto))
}

/// The hosts that are tried in turn.
#[derive(Clone, Copy, Debug)]
pub struct HostSearch {
    pub next: u16,
}

/// How many hosts are tried.
pub const HOSTS_TRIED: u16 = 33;

impl HostSearch {
    /// No host was tried yet.
    pub fn new() -> (r: Self)
        ensures
            r.next == 1,
    {
        HostSearch { next: 1 }
    }

    /// The next host to be tried, until enough were.
    pub fn next_host(&mut self) -> (r: Option<String>)
        ensures
            if old(self).next <= HOSTS_TRIED {
                &&& r is Some
                &&& r->Some_0@ == host_ip(old(self).next)
                &&& final(self).next == old(self).next + 1
            } else {
                r is None && *final(self) == *old(self)
            },
    {
        if self.next > HOSTS_TRIED {
            return None;
        }
        let host = generate_host_ip(self.next);
        self.next = self.next + 1;
        Some(host)
    }
}

// ---------------------------------------------------------------------------
// The name of what is shared
// ---------------------------------------------------------------------------

/// A text without the slashes at its end.
pub open spec fn without_end_slashes(s: Seq<char>) -> Seq<char>
    decreases s.len(),
{
    if s.len() > 0 && s.last() == '/' {
        without_end_slashes(s.drop_last())
    } else {
        s
    }
}

/// A text without the slashes at its start.
pub open spec fn without_start_slashes(s: Seq<char>) -> Seq<char>
    decreases s.len(),
{
    if s.len() > 0 && s[0] == '/' {
        without_start_slashes(s.skip(1))
    } else {
        s
    }
}

/// What is shared under a name.
pub open spec fn export_path(name: Seq<char>) -> Seq<char> {
    seq!['/'] + without_start_slashes(without_end_slashes(name))
}

/// What is shared under a name: the name behind one slash.
pub fn export_name(name: &str) -> (r: String)
    ensures
        r@ == export_path(name@),
{
    let n: usize = name.unicode_len();
    let ghost s = name@;
    let mut end: usize = n;
    assert(s.take(n as int) =~= s);
    while end > 0 && name.get_char(end - 1) == '/'
        invariant
            end <= n,
            n == name@.len(),
            s == name@,
            without_end_slashes(s) == without_end_slashes(s.take(end as int)),
        decreases end,
    {
        assert(s.take(end as int).drop_last() =~= s.take(end - 1));
        end -= 1;
    }
    assert(without_end_slashes(s) =~= s.take(end as int));
    let ghost t = s.take(end as int);
    let mut start: usize = 0;
    assert(t.skip(0) =~= t);
    while start < end && name.get_char(start) == '/'
        invariant
            start <= end <= n,
            n == name@.len(),
            s == name@,
            t == s.take(end as int),
            without_start_slashes(t) == without_start_slashes(t.skip(start as int)),
        decreases end - start,
    {
        assert(t.skip(start as int)[0] == t[start as int]);
        assert(t.skip(start as int).skip(1) =~= t.skip(start + 1));
        start += 1;
    }
    assert(without_start_slashes(t) =~= t.skip(start as int)) by {
        if start < end {
            assert(t.skip(start as int)[0] == t[start as int]);
        }
    }
    proof {
        reveal_strlit("/");
        assert("/"@ =~= seq!['/']);
    }
    let mut out = String::from_str("/");
    if start < end {
        out.append(name.substring_char(start, end));
        assert(s.subrange(start as int, end as int) =~= t.skip(start as int));
    } else {
        assert(t.skip(start as int) =~= Seq::<char>::empty());
        assert(out@ =~= export_path(s));
    }
    out
}

// ---------------------------------------------------------------------------
// Connections
// ---------------------------------------------------------------------------

/// How connections are set up.
#[derive(Clone, Copy, Debug)]
pub struct TcpTuningConfig {
    pub send_buffer_size: usize,
    pub recv_buffer_size: usize,
    /// Whether small messages are sent at once.
    pub nodelay: bool,
    /// Whether what was received is acknowledged at once.
    pub quickack: bool,
    /// Whether idle connections are kept.
    pub keepalive: bool,
    pub keepalive_idle_secs: u32,
    pub keepalive_interval_secs: u32,
    pub keepalive_probe_count: u32,
}

/// How connections are to be set up, as far as it is told.
#[derive(Clone, Copy, Debug)]
pub struct TcpSettings {
    pub send_buffer_kb: Option<usize>,
    pub recv_buffer_kb: Option<usize>,
    pub nodelay: Option<bool>,
    pub quickack: Option<bool>,
    pub keepalive: Option<bool>,
    pub keepalive_idle_secs: Option<u32>,
    pub keepalive_interval_secs: Option<u32>,
    pub keepalive_probe_count: Option<u32>,
}

impl TcpSettings {
    /// The buffers can be counted in bytes.
    pub open spec fn fits(&self) -> bool {
        &&& self.send_buffer_kb is Some ==> self.send_buffer_kb->Some_0 * 0x400 <= usize::MAX
        &&& self.recv_buffer_kb is Some ==> self.recv_buffer_kb->Some_0 * 0x400 <= usize::MAX
    }

    /// Whether the buffers can be counted in bytes.
    pub fn can_be_met(&self) -> (r: bool)
        ensures
            r == self.fits(),
    {
        let most: usize = usize::MAX / 0x400;
        let send: usize = self.send_buffer_kb.unwrap_or(0);
        let recv: usize = self.recv_buffer_kb.unwrap_or(0);
        send <= most && recv <= most
    }
}

/// What is told of how connections are to be set up, as texts.
#[derive(Debug)]
pub struct TcpTexts {
    pub send_buffer_kb: Option<String>,
    pub recv_buffer_kb: Option<String>,
    pub nodelay: Option<String>,
    pub quickack: Option<String>,
    pub keepalive: Option<String>,
    pub keepalive_idle_secs: Option<String>,
    pub keepalive_interval_secs: Option<String>,
    pub keepalive_probe_count: Option<String>,
}

/// What a text says that is to be a number of bytes or the like.
pub open spec fn size_told(text: Option<String>) -> Option<usize> {
    match text {
        Some(t) => match number_up_to(text_bytes(t@), usize::MAX as u64) {
            Some(n) => Some(n as usize),
            None => None,
        },
        None => None,
    }
}

/// What a text says that is to be a number.
pub open spec fn number_told(text: Option<String>) -> Option<u32> {
    match text {
        Some(t) => number_in(text_bytes(t@)),
        None => None,
    }
}

/// What a text says that is to be a yes or a no: "true" or "false", and nothing else.
pub open spec fn flag_told(text: Option<String>) -> Option<bool> {
    match text {
        Some(t) => if text_bytes(t@) == true_bytes() {
            Some(true)
        } else if text_bytes(t@) == false_bytes() {
            Some(false)
        } else {
            None
        },
        None => None,
    }
}

/// "true"
pub open spec fn true_bytes() -> Seq<u8> {
    seq![116u8, 114u8, 117u8, 101u8]
}

/// "false"
pub open spec fn false_bytes() -> Seq<u8> {
    seq![102u8, 97u8, 108u8, 115u8, 101u8]
}

fn read_size(text: &Option<String>) -> (r: Option<usize>)
    ensures
        r == size_told(*text),
{
    match text {
        Some(t) => match parse_up_to(t.as_str().as_bytes(), usize::MAX as u64) {
            Some(n) => Some(n as usize),
            None => None,
        },
        None => None,
    }
}

fn read_number(text: &Option<String>) -> (r: Option<u32>)
    ensures
        r == number_told(*text),
{
    match text {
        Some(t) => parse_number(t.as_str().as_bytes()),
        None => None,
    }
}

fn read_flag(text: &Option<String>) -> (r: Option<bool>)
    ensures
        r == flag_told(*text),
{
    let t = match text {
        Some(t) => t,
        None => {
            return None;
        },
    };
    let yes: [u8; 4] = [116, 114, 117, 101];
    assert(yes@ =~= true_bytes());
    let no: [u8; 5] = [102, 97, 108, 115, 101];
    assert(no@ =~= false_bytes());
    let bytes = t.as_str().as_bytes();
    if bytes_eq(bytes, vstd::array::array_as_slice(&yes)) {
        Some(true)
    } else if bytes_eq(bytes, vstd::array::array_as_slice(&no)) {
        Some(false)
    } else {
        None
    }
}

impl TcpSettings {
    /// What texts tell. A text that does not say what it is to say tells nothing.
    pub fn from_texts(texts: &TcpTexts) -> (r: Self)
        ensures
            r == (TcpSettings {
                send_buffer_kb: size_told(texts.send_buffer_kb),
                recv_buffer_kb: size_told(texts.recv_buffer_kb),
                nodelay: flag_told(texts.nodelay),
                quickack: flag_told(texts.quickack),
                keepalive: flag_told(texts.keepalive),
                keepalive_idle_secs: number_told(texts.keepalive_idle_secs),
                keepalive_interval_secs: number_told(texts.keepalive_interval_secs),
                keepalive_probe_count: number_told(texts.keepalive_probe_count),
            }),
    {
        TcpSettings {
            send_buffer_kb: read_size(&texts.send_buffer_kb),
            recv_buffer_kb: read_size(&texts.recv_buffer_kb),
            nodelay: read_flag(&texts.nodelay),
            quickack: read_flag(&texts.quickack),
            keepalive: read_flag(&texts.keepalive),
            keepalive_idle_secs: read_number(&texts.keepalive_idle_secs),
            keepalive_interval_secs: read_number(&texts.keepalive_interval_secs),
            keepalive_probe_count: read_number(&texts.keepalive_probe_count),
        }
    }
}

/// What is told, or what is usual.
pub open spec fn told_or<T>(told: Option<T>, usual: T) -> T {
    match told {
        Some(t) => t,
        None => usual,
    }
}

impl TcpTuningConfig {
    /// As it is told, and where it is not told, as is usual.
    pub fn from_settings(s: &TcpSettings) -> (r: Self)
        requires
            s.fits(),
        ensures
            r == (TcpTuningConfig {
                send_buffer_size: (told_or(s.send_buffer_kb, 0x200) * 0x400) as usize,
                recv_buffer_size: (told_or(s.recv_buffer_kb, 0x200) * 0x400) as usize,
                nodelay: told_or(s.nodelay, true),
                quickack: told_or(s.quickack, true),
                keepalive: told_or(s.keepalive, true),
                keepalive_idle_secs: told_or(s.keepalive_idle_secs, 60),
                keepalive_interval_secs: told_or(s.keepalive_interval_secs, 10),
                keepalive_probe_count: told_or(s.keepalive_probe_count, 6),
            }),
    {
        let send_buffer_kb: usize = s.send_buffer_kb.unwrap_or(0x200);
        let recv_buffer_kb: usize = s.recv_buffer_kb.unwrap_or(0x200);
        TcpTuningConfig {
            send_buffer_size: send_buffer_kb * 0x400,
            recv_buffer_size: recv_buffer_kb * 0x400,
            nodelay: s.nodelay.unwrap_or(true),
            quickack: s.quickack.unwrap_or(true),
            keepalive: s.keepalive.unwrap_or(true),
            keepalive_idle_secs: s.keepalive_idle_secs.unwrap_or(60),
            keepalive_interval_secs: s.keepalive_interval_secs.unwrap_or(10),
            keepalive_probe_count: s.keepalive_probe_count.unwrap_or(6),
        }
    }

    /// Half a megabyte each way, and idle connections are kept.
    pub open spec fn usual() -> Self {
        TcpTuningConfig {
            send_buffer_size: 0x8_0000,
            recv_buffer_size: 0x8_0000,
            nodelay: true,
            quickack: true,
            keepalive: true,
            keepalive_idle_secs: 60,
            keepalive_interval_secs: 10,
            keepalive_probe_count: 6,
        }
    }

    /// For large files.
    pub fn large_files() -> (r: Self)
        ensures
            r == (TcpTuningConfig {
                send_buffer_size: 0x10_0000,
                recv_buffer_size: 0x10_0000,
                ..Self::usual()
            }),
    {
        let mut r = TcpTuningConfig::default();
        r.send_buffer_size = 0x10_0000;
        r.recv_buffer_size = 0x10_0000;
        r
    }

    /// For small operations.
    pub fn low_latency() -> (r: Self)
        ensures
            r == (TcpTuningConfig {
                send_buffer_size: 0x4_0000,
                recv_buffer_size: 0x4_0000,
                ..Self::usual()
            }),
    {
        let mut r = TcpTuningConfig::default();
        r.send_buffer_size = 0x4_0000;
        r.recv_buffer_size = 0x4_0000;
        r
    }
}

impl Default for TcpTuningConfig {
    fn default() -> (r: Self)
        ensures
            r == Self::usual(),
    {
        TcpTuningConfig {
            send_buffer_size: 0x8_0000,
            recv_buffer_size: 0x8_0000,
            nodelay: true,
            quickack: true,
            keepalive: true,
            keepalive_idle_secs: 60,
            keepalive_interval_secs: 10,
            keepalive_probe_count: 6,
        }
    }
}

} // verus!
