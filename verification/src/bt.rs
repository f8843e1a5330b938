//! Accessory (bluetooth device) records and the parsers for the discovery
//! tool's text output. An address is six bytes, written canonically as
//! colon-separated uppercase hex pairs; records are keyed by address. The
//! scan listing yields lines of the form `Device <address> <name...>`; a
//! per-device info listing yields `<key>: yes|no` lines for the paired,
//! trusted and connected flags. The tool itself runs outside the library;
//! only its output text comes through here.

use vstd::prelude::*;
use crate::text::{
    spec_split_ws, spec_join, spec_trim_start, spec_starts_with, spec_find_sub, spec_line_split,
    split_whitespace, join_with, trim_start_chars, starts_with_sub, str_chars, chars_to_string,
    find_sub, subvec, split_lines, lemma_find_sub_bounds,
};

verus! {

/// Whether `c` is a hexadecimal digit.
pub open spec fn spec_is_hex_digit(c: char) -> bool {
    ('0' <= c <= '9') || ('a' <= c <= 'f') || ('A' <= c <= 'F')
}

/// Numeric value of a hexadecimal digit.
pub open spec fn spec_hex_val(c: char) -> int {
    if '0' <= c <= '9' {
        c as int - '0' as int
    } else if 'a' <= c <= 'f' {
        c as int - 'a' as int + 10
    } else {
        c as int - 'A' as int + 10
    }
}

/// Whether `s` is a textual address: six hex pairs joined by one uniform
/// separator, either `:` or `-`.
pub open spec fn spec_valid_mac(s: Seq<char>) -> bool {
    &&& s.len() == 17
    &&& (s[2] == ':' || s[2] == '-')
    &&& (forall|g: int| 0 <= g < 5 ==> #[trigger] s[3 * g + 2] == s[2])
    &&& (forall|g: int|
        0 <= g < 6 ==> spec_is_hex_digit(#[trigger] s[3 * g]) && spec_is_hex_digit(s[3 * g + 1]))
}

/// The byte that group `g` of a valid textual address denotes.
pub open spec fn spec_mac_octet(s: Seq<char>, g: int) -> int {
    spec_hex_val(s[3 * g]) * 16 + spec_hex_val(s[3 * g + 1])
}

/// A six-byte accessory address.
#[derive(Clone, Copy, Debug, PartialEq, Eq)]
pub struct MacAddr {
    pub octets: [u8; 6],
}

/// Uppercase hex character for one digit value.
pub open spec fn spec_hex_char(d: int) -> char {
    if d == 0 {
        '0'
    } else if d == 1 {
        '1'
    } else if d == 2 {
        '2'
    } else if d == 3 {
        '3'
    } else if d == 4 {
        '4'
    } else if d == 5 {
        '5'
    } else if d == 6 {
        '6'
    } else if d == 7 {
        '7'
    } else if d == 8 {
        '8'
    } else if d == 9 {
        '9'
    } else if d == 10 {
        'A'
    } else if d == 11 {
        'B'
    } else if d == 12 {
        'C'
    } else if d == 13 {
        'D'
    } else if d == 14 {
        'E'
    } else {
        'F'
    }
}

/// The canonical text of an address: uppercase hex pairs joined by colons.
pub open spec fn spec_mac_canonical(o: Seq<u8>) -> Seq<char> {
    seq![
        spec_hex_char(o[0] as int / 16),
        spec_hex_char(o[0] as int % 16),
        ':',
        spec_hex_char(o[1] as int / 16),
        spec_hex_char(o[1] as int % 16),
        ':',
        spec_hex_char(o[2] as int / 16),
        spec_hex_char(o[2] as int % 16),
        ':',
        spec_hex_char(o[3] as int / 16),
        spec_hex_char(o[3] as int % 16),
        ':',
        spec_hex_char(o[4] as int / 16),
        spec_hex_char(o[4] as int % 16),
        ':',
        spec_hex_char(o[5] as int / 16),
        spec_hex_char(o[5] as int % 16),
    ]
}

fn hex_val(c: char) -> (r: Option<u8>)
    ensures
        match r {
            Option::Some(v) => spec_is_hex_digit(c) && v == spec_hex_val(c) && v < 16,
            Option::None => !spec_is_hex_digit(c),
        },
{
    if c >= '0' && c <= '9' {
        Option::Some((c as u32 - 48) as u8)
    } else if c >= 'a' && c <= 'f' {
        Option::Some((c as u32 - 97 + 10) as u8)
    } else if c >= 'A' && c <= 'F' {
        Option::Some((c as u32 - 65 + 10) as u8)
    } else {
        Option::None
    }
}

fn hex_char(d: u8) -> (c: char)
    requires
        d < 16,
    ensures
        c == spec_hex_char(d as int),
{
    if d < 10 {
        (48 + d) as char
    } else {
        (65 + (d - 10)) as char
    }
}

impl MacAddr {
    /// Parse a textual address: `Some` exactly on six hex pairs joined by a
    /// uniform `:` or `-`, with the denoted bytes.
    pub fn parse(s: &str) -> (r: Option<MacAddr>)
        ensures
            match r {
                Option::Some(m) => spec_valid_mac(s@) && forall|g: int|
                    0 <= g < 6 ==> #[trigger] m.octets@[g] == spec_mac_octet(s@, g),
                Option::None => !spec_valid_mac(s@),
            },
    {
        let v = str_chars(s);
        if v.len() != 17 {
            return Option::None;
        }
        let sep = v[2];
        if !(sep == ':' || sep == '-') {
            return Option::None;
        }
        if v[5] != sep || v[8] != sep || v[11] != sep || v[14] != sep {
            proof {
                if spec_valid_mac(s@) {
                    assert(s@[3int * 1 + 2] == s@[2]);
                    assert(s@[3int * 2 + 2] == s@[2]);
                    assert(s@[3int * 3 + 2] == s@[2]);
                    assert(s@[3int * 4 + 2] == s@[2]);
                }
            }
            return Option::None;
        }
        let mut octets: [u8; 6] = [0, 0, 0, 0, 0, 0];
        let mut g: usize = 0;
        while g < 6
            invariant
                v@ =~= s@,
                v@.len() == 17,
                g <= 6,
                forall|q: int|
                    0 <= q < g ==> spec_is_hex_digit(#[trigger] v@[3 * q]) && spec_is_hex_digit(
                        v@[3 * q + 1],
                    ),
                forall|q: int| 0 <= q < g ==> #[trigger] octets@[q] == spec_mac_octet(v@, q),
            decreases 6 - g,
        {
            let hi = match hex_val(v[3 * g]) {
                Option::Some(h) => h,
                Option::None => {
                    return Option::None;
                },
            };
            let lo = match hex_val(v[3 * g + 1]) {
                Option::Some(h) => h,
                Option::None => {
                    return Option::None;
                },
            };
            octets[g] = hi * 16 + lo;
            g = g + 1;
        }
        Option::Some(MacAddr { octets })
    }

    /// The canonical colon-hex text of this address.
    pub fn to_canonical(&self) -> (out: String)
        ensures
            out@ == spec_mac_canonical(self.octets@),
    {
        let mut v: Vec<char> = Vec::new();
        let mut g: usize = 0;
        while g < 6
            invariant
                g <= 6,
                v@ =~= spec_mac_canonical(self.octets@).take(if g == 0 {
                    0int
                } else {
                    3 * g - 1
                }),
            decreases 6 - g,
        {
            if g > 0 {
                v.push(':');
            }
            let b = self.octets[g];
            v.push(hex_char(b / 16));
            v.push(hex_char(b % 16));
            g = g + 1;
            proof {
                assert(v@ =~= spec_mac_canonical(self.octets@).take(3 * g - 1));
            }
        }
        proof {
            assert(spec_mac_canonical(self.octets@).take(17) =~= spec_mac_canonical(self.octets@));
        }
        chars_to_string(&v)
    }

    /// Whether two addresses hold the same six bytes.
    pub fn same(&self, other: &MacAddr) -> (r: bool)
        ensures
            r == (self.octets@ =~= other.octets@),
    {
        let mut g: usize = 0;
        while g < 6
            invariant
                g <= 6,
                forall|q: int| 0 <= q < g ==> self.octets@[q] == other.octets@[q],
            decreases 6 - g,
        {
            if self.octets[g] != other.octets[g] {
                return false;
            }
            g = g + 1;
        }
        true
    }
}

/// One discovered accessory: its address, display name, and the three
/// independent pairing flags. Records are keyed by address.
#[derive(Debug)]
pub struct Device {
    pub addr: MacAddr,
    pub name: String,
    pub paired: bool,
    pub trusted: bool,
    pub connected: bool,
}

impl Clone for Device {
    fn clone(&self) -> (r: Self)
        ensures
            r == *self,
    {
        Device {
            addr: self.addr,
            name: self.name.clone(),
            paired: self.paired,
            trusted: self.trusted,
            connected: self.connected,
        }
    }
}

/// One line of the scan listing: an address and a raw display name.
#[derive(Debug)]
pub struct ScanResult {
    pub addr: MacAddr,
    pub name: String,
}

impl Clone for ScanResult {
    fn clone(&self) -> (r: Self)
        ensures
            r == *self,
    {
        ScanResult { addr: self.addr, name: self.name.clone() }
    }
}

/// Why a scan listing line was rejected.
#[derive(Clone, Copy, Debug, PartialEq, Eq, Structural)]
pub enum ScanParseError {
    /// Fewer than two whitespace-separated tokens.
    Malformed,
    /// The second token is not a textual address.
    BadAddress,
}

/// Whether a scan listing line parses: at least two tokens, the second a
/// textual address.
pub open spec fn spec_scan_ok(line: Seq<char>) -> bool {
    let toks = spec_split_ws(line);
    toks.len() >= 2 && spec_valid_mac(toks[1])
}

/// `s` with every occurrence of `c` removed.
pub open spec fn spec_without(s: Seq<char>, c: char) -> Seq<char>
    decreases s.len(),
{
    if s.len() == 0 {
        seq![]
    } else if s.last() == c {
        spec_without(s.drop_last(), c)
    } else {
        spec_without(s.drop_last(), c).push(s.last())
    }
}

/// The name a scan listing line denotes: the remaining tokens joined by
/// single spaces, blanked when it is just the address written with `-` in
/// place of `:`.
pub open spec fn spec_scan_name(line: Seq<char>) -> Seq<char> {
    let toks = spec_split_ws(line);
    let raw = spec_join(toks.skip(2), ' ');
    if spec_without(raw, '-') == spec_without(toks[1], ':') {
        Seq::<char>::empty()
    } else {
        raw
    }
}

impl ScanResult {
    /// Parse one scan listing line, `Device <address> <name...>`: the first
    /// token is ignored, the second must be an address, the rest form the
    /// name. A name that merely repeats the address is blanked.
    pub fn try_from(s: &str) -> (r: Result<ScanResult, ScanParseError>)
        ensures
            ({
                let toks = spec_split_ws(s@);
                match r {
                    Result::Ok(sr) => {
                        &&& spec_scan_ok(s@)
                        &&& forall|g: int|
                            0 <= g < 6 ==> #[trigger] sr.addr.octets@[g] == spec_mac_octet(
                                toks[1],
                                g,
                            )
                        &&& sr.name@ == spec_scan_name(s@)
                    },
                    Result::Err(e) => {
                        &&& !spec_scan_ok(s@)
                        &&& e == (if toks.len() < 2 {
                            ScanParseError::Malformed
                        } else {
                            ScanParseError::BadAddress
                        })
                    },
                }
            }),
    {
        let v = str_chars(s);
        let tokens = split_whitespace(&v);
        if tokens.len() < 2 {
            return Result::Err(ScanParseError::Malformed);
        }
        let addr_text = chars_to_string(&tokens[1]);
        proof {
            assert(addr_text@ == spec_split_ws(s@)[1]);
        }
        let addr = match MacAddr::parse(addr_text.as_str()) {
            Option::Some(m) => m,
            Option::None => {
                return Result::Err(ScanParseError::BadAddress);
            },
        };
        let mut name_tokens: Vec<Vec<char>> = Vec::new();
        let mut i: usize = 2;
        while i < tokens.len()
            invariant
                2 <= i <= tokens@.len(),
                name_tokens.deep_view() =~~= tokens.deep_view().skip(2).take(i - 2),
            decreases tokens@.len() - i,
        {
            let ghost before = name_tokens.deep_view();
            name_tokens.push(tokens[i].clone());
            i = i + 1;
            proof {
                assert(tokens@[i - 1]@ == tokens.deep_view()[i - 1]);
                assert(name_tokens.deep_view() =~~= before.push(tokens.deep_view()[i - 1]));
                assert(name_tokens.deep_view() =~~= tokens.deep_view().skip(2).take(i - 2));
            }
        }
        proof {
            assert(tokens.deep_view().skip(2).take(tokens@.len() - 2) =~~= tokens.deep_view().skip(
                2,
            ));
        }
        let raw = join_with(&name_tokens, ' ');
        proof {
            assert(raw@ == spec_join(spec_split_ws(s@).skip(2), ' '));
        }
        let name_nodash = filter_out(&raw, '-');
        let addr_nocolon = filter_out(&tokens[1], ':');
        let name: Vec<char> = if eq_chars(&name_nodash, &addr_nocolon) {
            Vec::new()
        } else {
            raw
        };
        proof {
            assert(name@ =~= spec_scan_name(s@));
        }
        let out = ScanResult { addr, name: chars_to_string(&name) };
        proof {
            assert(out.name@ =~= spec_scan_name(s@));
        }
        Result::Ok(out)
    }
}

/// `v` without every occurrence of `c`.
pub fn filter_out(v: &Vec<char>, c: char) -> (out: Vec<char>)
    ensures
        out@ == spec_without(v@, c),
{
    let mut out: Vec<char> = Vec::new();
    let mut i: usize = 0;
    while i < v.len()
        invariant
            i <= v@.len(),
            out@ == spec_without(v@.take(i as int), c),
        decreases v@.len() - i,
    {
        proof {
            assert(v@.take(i + 1).drop_last() =~= v@.take(i as int));
            assert(v@.take(i + 1).last() == v@[i as int]);
        }
        if v[i] != c {
            out.push(v[i]);
        }
        i = i + 1;
    }
    proof {
        assert(v@.take(v@.len() as int) =~= v@);
    }
    out
}

/// Whether two character vectors hold the same characters.
pub fn eq_chars(a: &Vec<char>, b: &Vec<char>) -> (r: bool)
    ensures
        r == (a@ =~= b@),
{
    if a.len() != b.len() {
        return false;
    }
    let mut i: usize = 0;
    while i < a.len()
        invariant
            a@.len() == b@.len(),
            i <= a@.len(),
            forall|k: int| 0 <= k < i ==> a@[k] == b@[k],
        decreases a@.len() - i,
    {
        if a[i] != b[i] {
            return false;
        }
        i = i + 1;
    }
    true
}

impl Device {
    /// A freshly discovered record: the scan data with all flags down (the
    /// info listing fills them in afterwards).
    pub fn from(result: ScanResult) -> (d: Device)
        ensures
            d.addr == result.addr,
            d.name == result.name,
            !d.paired,
            !d.trusted,
            !d.connected,
    {
        Device {
            addr: result.addr,
            name: result.name,
            paired: false,
            trusted: false,
            connected: false,
        }
    }
}

/// A full replacement list of accessory records, pushed by the discovery
/// collaborator.
#[derive(Debug)]
pub enum BluetoothEvent {
    Scan(Vec<Device>),
}

/// A request to the discovery collaborator.
#[derive(Debug)]
pub enum BluetoothRequest {
    Connect(Device),
    Disconnect(Device),
    StartScan,
    StopScan,
}

/// The steps a connect request implies for the tool, decided from the
/// record's flags: an already connected accessory is disconnected instead;
/// otherwise it is first paired and trusted where those flags are down, then
/// connected.
#[derive(Clone, Copy, Debug, PartialEq, Eq, Structural)]
pub enum ConnectPlan {
    Disconnect,
    Connect { pair_first: bool, trust_first: bool },
}

pub fn connect_steps(device: &Device) -> (plan: ConnectPlan)
    ensures
        plan == if device.connected {
            ConnectPlan::Disconnect
        } else {
            ConnectPlan::Connect { pair_first: !device.paired, trust_first: !device.trusted }
        },
{
    if device.connected {
        ConnectPlan::Disconnect
    } else {
        ConnectPlan::Connect { pair_first: !device.paired, trust_first: !device.trusted }
    }
}

/// The `": "` separator of the info listing's key/value lines.
pub open spec fn spec_kv_sep() -> Seq<char> {
    seq![':', ' ']
}

/// The value field of an info listing line: the text between the first
/// `": "` and the next one (or the end); `None` when the line has no `": "`.
pub open spec fn spec_status_field(line: Seq<char>) -> Option<Seq<char>> {
    let i = spec_find_sub(line, spec_kv_sep());
    if i < 0 {
        Option::None
    } else {
        let rest = line.skip(i + 2);
        let j = spec_find_sub(rest, spec_kv_sep());
        if j < 0 {
            Option::Some(rest)
        } else {
            Option::Some(rest.take(j))
        }
    }
}

/// Extract the value field of an info listing line.
pub fn status_field(line: &Vec<char>) -> (r: Option<Vec<char>>)
    ensures
        match r {
            Option::Some(f) => spec_status_field(line@) == Option::Some(f@),
            Option::None => spec_status_field(line@) is None,
        },
{
    let mut sep: Vec<char> = Vec::new();
    sep.push(':');
    sep.push(' ');
    proof {
        assert(sep@ =~= spec_kv_sep());
    }
    let i = match find_sub(line, &sep) {
        Option::Some(i) => i,
        Option::None => {
            return Option::None;
        },
    };
    proof {
        lemma_find_sub_bounds(line@, sep@);
    }
    let line_len = line.len();
    let rest = subvec(line, i + 2, line_len);
    proof {
        assert(rest@ =~= line@.skip(i + 2));
    }
    match find_sub(&rest, &sep) {
        Option::Some(j) => {
            proof {
                lemma_find_sub_bounds(rest@, sep@);
            }
            let field = subvec(&rest, 0, j);
            proof {
                assert(field@ =~= rest@.take(j as int));
            }
            Option::Some(field)
        },
        Option::None => Option::Some(rest),
    }
}

/// What one `yes`/`no` value does to a flag: `yes` raises it, `no` lowers
/// it, anything else (or no value at all) leaves it alone.
pub open spec fn spec_flag_update(cur: bool, line: Seq<char>) -> bool {
    match spec_status_field(line) {
        Option::None => cur,
        Option::Some(f) => if f == seq!['y', 'e', 's'] {
            true
        } else if f == seq!['n', 'o'] {
            false
        } else {
            cur
        },
    }
}

/// The record after one info listing line: a line whose trimmed text starts
/// with `Paired:`, `Trusted:` or `Connected:` updates that flag from the
/// line's value field; any other line changes nothing.
pub open spec fn spec_device_after_info_line(d: Device, line: Seq<char>) -> Device {
    let t = spec_trim_start(line);
    let d1 = if spec_starts_with(t, seq!['P', 'a', 'i', 'r', 'e', 'd', ':']) {
        Device { paired: spec_flag_update(d.paired, line), ..d }
    } else {
        d
    };
    let d2 = if spec_starts_with(t, seq!['T', 'r', 'u', 's', 't', 'e', 'd', ':']) {
        Device { trusted: spec_flag_update(d1.trusted, line), ..d1 }
    } else {
        d1
    };
    if spec_starts_with(t, seq!['C', 'o', 'n', 'n', 'e', 'c', 't', 'e', 'd', ':']) {
        Device { connected: spec_flag_update(d2.connected, line), ..d2 }
    } else {
        d2
    }
}

fn flag_from_field(cur: bool, line: &Vec<char>) -> (r: bool)
    ensures
        r == spec_flag_update(cur, line@),
{
    let mut yes: Vec<char> = Vec::new();
    yes.push('y');
    yes.push('e');
    yes.push('s');
    let mut no: Vec<char> = Vec::new();
    no.push('n');
    no.push('o');
    proof {
        assert(yes@ =~= seq!['y', 'e', 's']);
        assert(no@ =~= seq!['n', 'o']);
    }
    match status_field(line) {
        Option::None => cur,
        Option::Some(f) => {
            if eq_chars(&f, &yes) {
                true
            } else if eq_chars(&f, &no) {
                false
            } else {
                cur
            }
        },
    }
}

/// Fold one info listing line into the record's flags.
pub fn apply_info_line(d: &mut Device, line: &Vec<char>)
    ensures
        *final(d) == spec_device_after_info_line(*old(d), line@),
{
    let t = trim_start_chars(line);
    let mut key_paired: Vec<char> = Vec::new();
    key_paired.push('P');
    key_paired.push('a');
    key_paired.push('i');
    key_paired.push('r');
    key_paired.push('e');
    key_paired.push('d');
    key_paired.push(':');
    let mut key_trusted: Vec<char> = Vec::new();
    key_trusted.push('T');
    key_trusted.push('r');
    key_trusted.push('u');
    key_trusted.push('s');
    key_trusted.push('t');
    key_trusted.push('e');
    key_trusted.push('d');
    key_trusted.push(':');
    let mut key_connected: Vec<char> = Vec::new();
    key_connected.push('C');
    key_connected.push('o');
    key_connected.push('n');
    key_connected.push('n');
    key_connected.push('e');
    key_connected.push('c');
    key_connected.push('t');
    key_connected.push('e');
    key_connected.push('d');
    key_connected.push(':');
    proof {
        assert(key_paired@ =~= seq!['P', 'a', 'i', 'r', 'e', 'd', ':']);
        assert(key_trusted@ =~= seq!['T', 'r', 'u', 's', 't', 'e', 'd', ':']);
        assert(key_connected@ =~= seq!['C', 'o', 'n', 'n', 'e', 'c', 't', 'e', 'd', ':']);
    }
    if starts_with_sub(&t, &key_paired) {
        d.paired = flag_from_field(d.paired, line);
    }
    if starts_with_sub(&t, &key_trusted) {
        d.trusted = flag_from_field(d.trusted, line);
    }
    if starts_with_sub(&t, &key_connected) {
        d.connected = flag_from_field(d.connected, line);
    }
}

/// The record after a whole info listing.
pub open spec fn spec_device_after_info(d: Device, ls: Seq<Seq<char>>) -> Device
    decreases ls.len(),
{
    if ls.len() == 0 {
        d
    } else {
        spec_device_after_info(spec_device_after_info_line(d, ls[0]), ls.drop_first())
    }
}

/// Fold a whole info listing into the record's flags, line by line.
pub fn apply_info_text(d: &mut Device, text: &str)
    ensures
        *final(d) == spec_device_after_info(*old(d), spec_line_split(text@)),
{
    let v = str_chars(text);
    let lines = split_lines(&v);
    let ghost ls = spec_line_split(text@);
    let mut i: usize = 0;
    proof {
        assert(ls.skip(0) =~~= ls);
    }
    while i < lines.len()
        invariant
            i <= lines@.len(),
            lines.deep_view() == ls,
            spec_device_after_info(*d, ls.skip(i as int)) == spec_device_after_info(*old(d), ls),
        decreases lines@.len() - i,
    {
        proof {
            assert(ls.skip(i as int)[0] == lines@[i as int]@);
            assert(ls.skip(i as int).drop_first() =~~= ls.skip(i + 1));
        }
        apply_info_line(d, &lines[i]);
        i = i + 1;
    }
    proof {
        assert(ls.skip(lines@.len() as int) =~~= Seq::<Seq<char>>::empty());
    }
}

/// Whether a line of the scan listing yields a record.
pub open spec fn spec_line_parses(l: Seq<char>) -> bool {
    spec_scan_ok(l)
}

/// Parse the whole scan listing: one record per line that parses, in order.
pub fn parse_device_lines(text: &str) -> (out: Vec<ScanResult>)
    ensures
        ({
            let good = spec_line_split(text@).filter(|l: Seq<char>| spec_line_parses(l));
            &&& out@.len() == good.len()
            &&& forall|k: int|
                0 <= k < good.len() ==> (#[trigger] out@[k]).name@ == spec_scan_name(good[k])
                    && forall|g: int|
                    0 <= g < 6 ==> #[trigger] out@[k].addr.octets@[g] == spec_mac_octet(
                        spec_split_ws(good[k])[1],
                        g,
                    )
        }),
{
    let v = str_chars(text);
    let lines = split_lines(&v);
    let ghost ls = spec_line_split(text@);
    let mut out: Vec<ScanResult> = Vec::new();
    let mut i: usize = 0;
    proof {
        reveal(Seq::filter);
        assert(ls.take(0).filter(|l: Seq<char>| spec_line_parses(l)) =~~= Seq::<Seq<
            char,
        >>::empty());
    }
    while i < lines.len()
        invariant
            i <= lines@.len(),
            lines.deep_view() == ls,
            ({
                let good = ls.take(i as int).filter(|l: Seq<char>| spec_line_parses(l));
                &&& out@.len() == good.len()
                &&& forall|k: int|
                    0 <= k < good.len() ==> (#[trigger] out@[k]).name@ == spec_scan_name(good[k])
                        && forall|g: int|
                        0 <= g < 6 ==> #[trigger] out@[k].addr.octets@[g] == spec_mac_octet(
                            spec_split_ws(good[k])[1],
                            g,
                        )
            }),
        decreases lines@.len() - i,
    {
        let line_text = chars_to_string(&lines[i]);
        proof {
            reveal(Seq::filter);
            assert(line_text@ == ls[i as int]);
            assert(ls.take(i + 1).drop_last() =~~= ls.take(i as int));
            assert(ls.take(i + 1).last() == ls[i as int]);
        }
        let ghost pred = |l: Seq<char>| spec_line_parses(l);
        let ghost good_before = ls.take(i as int).filter(pred);
        match ScanResult::try_from(line_text.as_str()) {
            Result::Ok(sr) => {
                out.push(sr);
                proof {
                    assert(ls.take(i + 1).filter(pred) =~~= good_before.push(ls[i as int]));
                }
            },
            Result::Err(_) => {
                proof {
                    assert(ls.take(i + 1).filter(pred) =~~= good_before);
                }
            },
        }
        i = i + 1;
    }
    proof {
        assert(ls.take(lines@.len() as int) =~~= ls);
    }
    out
}

} // verus!
