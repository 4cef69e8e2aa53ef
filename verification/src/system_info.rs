//! Machine description shown in the window header: the CPU brand string and
//! the one-line summary of CPU, memory, OS, BIOS and display.
use vstd::prelude::*;
use crate::cli::ec_wrapper::VersionsData;

verus! {

/// `String::from_utf8_lossy(bytes)` from std, as characters: the bytes
/// decoded as UTF-8 with each invalid sequence replaced by U+FFFD.
pub uninterp spec fn utf8_lossy(bytes: Seq<u8>) -> Seq<char>;

/// A character with the Unicode `White_Space` property.
pub open spec fn is_white_space(c: char) -> bool {
    let v = c as u32;
    ||| 0x09 <= v <= 0x0D
    ||| v == 0x20
    ||| v == 0x85
    ||| v == 0xA0
    ||| v == 0x1680
    ||| 0x2000 <= v <= 0x200A
    ||| v == 0x2028
    ||| v == 0x2029
    ||| v == 0x202F
    ||| v == 0x205F
    ||| v == 0x3000
}

/// Number of white-space characters that `s` starts with.
pub open spec fn leading_white_space(s: Seq<char>) -> nat
    decreases s.len(),
{
    if s.len() > 0 && is_white_space(s[0]) { 1 + leading_white_space(s.drop_first()) } else { 0 }
}

/// Number of white-space characters that `s` ends with.
pub open spec fn trailing_white_space(s: Seq<char>) -> nat
    decreases s.len(),
{
    if s.len() > 0 && is_white_space(s.last()) { 1 + trailing_white_space(s.drop_last()) } else { 0 }
}

/// `s` without its leading and trailing white space.
pub open spec fn unicode_trimmed(s: Seq<char>) -> Seq<char> {
    let t = s.skip(leading_white_space(s) as int);
    t.take(t.len() - trailing_white_space(t))
}

/// `String::from_utf8_lossy` from std, made an owned `String`.
#[verifier::external_body]
fn decode_utf8_lossy(bytes: &[u8]) -> (s: String)
    ensures
        s@ == utf8_lossy(bytes@),
{
    String::from_utf8_lossy(bytes).into_owned()
}

/// Whether `c` has the Unicode `White_Space` property.
fn white_space(c: char) -> (b: bool)
    ensures
        b == is_white_space(c),
{
    let v = c as u32;
    (0x09 <= v && v <= 0x0D) || v == 0x20 || v == 0x85 || v == 0xA0 || v == 0x1680
        || (0x2000 <= v && v <= 0x200A) || v == 0x2028 || v == 0x2029 || v == 0x202F || v == 0x205F
        || v == 0x3000
}

proof fn lemma_leading_white_space(s: Seq<char>, k: int)
    requires
        0 <= k <= s.len(),
        forall|j: int| 0 <= j < k ==> is_white_space(#[trigger] s[j]),
        k == s.len() || !is_white_space(s[k]),
    ensures
        leading_white_space(s) == k,
    decreases k,
{
    if k > 0 {
        let r = s.drop_first();
        assert forall|j: int| 0 <= j < k - 1 implies is_white_space(#[trigger] r[j]) by {
            assert(r[j] == s[j + 1]);
        }
        if k < s.len() {
            assert(r[k - 1] == s[k]);
        }
        lemma_leading_white_space(r, k - 1);
        assert(is_white_space(s[0]));
    }
}

proof fn lemma_trailing_white_space(s: Seq<char>, m: int)
    requires
        0 <= m <= s.len(),
        forall|j: int| s.len() - m <= j < s.len() ==> is_white_space(#[trigger] s[j]),
        m == s.len() || !is_white_space(s[s.len() - 1 - m]),
    ensures
        trailing_white_space(s) == m,
    decreases m,
{
    if m > 0 {
        let r = s.drop_last();
        assert forall|j: int| r.len() - (m - 1) <= j < r.len() implies is_white_space(#[trigger] r[j]) by {
            assert(r[j] == s[j]);
        }
        if m < s.len() {
            assert(r[r.len() - 1 - (m - 1)] == s[s.len() - 1 - m]);
        }
        lemma_trailing_white_space(r, m - 1);
        assert(is_white_space(s[s.len() - 1]));
    }
}

/// `s` without leading and trailing characters with the Unicode
/// `White_Space` property (what std's `str::trim` returns).
fn trim(s: &str) -> (t: &str)
    ensures
        t@ == unicode_trimmed(s@),
{
    let n = s.unicode_len();
    let mut lead: usize = 0;
    while lead < n && white_space(s.get_char(lead))
        invariant
            n == s@.len(),
            lead <= n,
            forall|j: int| 0 <= j < lead ==> is_white_space(#[trigger] s@[j]),
        decreases n - lead,
    {
        lead = lead + 1;
    }
    let mut end: usize = n;
    while end > lead && white_space(s.get_char(end - 1))
        invariant
            n == s@.len(),
            lead <= end <= n,
            forall|j: int| end <= j < n ==> is_white_space(#[trigger] s@[j]),
        decreases end - lead,
    {
        end = end - 1;
    }
    proof {
        lemma_leading_white_space(s@, lead as int);
        let t = s@.skip(lead as int);
        assert forall|j: int| t.len() - (n - end) <= j < t.len() implies is_white_space(#[trigger] t[j]) by {
            assert(t[j] == s@[lead + j]);
        }
        if end > lead {
            assert(t[t.len() - 1 - (n - end)] == s@[end - 1]);
        }
        lemma_trailing_white_space(t, (n - end) as int);
        assert(t.take(t.len() - (n - end)) =~= s@.subrange(lead as int, end as int));
    }
    s.substring_char(lead, end)
}

/// Length of the brand string: up to the first NUL byte, or all 48 bytes.
pub open spec fn brand_len(brand: Seq<u8>) -> int {
    if exists|i: int| 0 <= i < brand.len() && brand[i] == 0 {
        choose|i: int| 0 <= i < brand.len() && brand[i] == 0 && forall|k: int| 0 <= k < i ==> brand[k] != 0
    } else {
        brand.len() as int
    }
}

/// The CPU name in the processor brand string (the 48 bytes of CPUID
/// leaves 0x80000002..=0x80000004): the bytes before the first NUL,
/// decoded leniently as UTF-8, without surrounding white space.
pub fn cpu_name(brand: &[u8; 48]) -> (name: String)
    ensures
        name@ == unicode_trimmed(utf8_lossy(brand@.take(brand_len(brand@)))),
{
    let mut end: usize = 0;
    while end < 48 && brand[end] != 0
        invariant
            end <= 48,
            brand@.len() == 48,
            forall|k: int| 0 <= k < end ==> brand@[k] != 0,
        decreases 48 - end,
    {
        end = end + 1;
    }
    let ghost b = brand@;
    proof {
        if end < 48 {
            assert(b[end as int] == 0);
            let c = choose|i: int| 0 <= i < b.len() && b[i] == 0 && forall|k: int| 0 <= k < i ==> b[k] != 0;
            assert(0 <= end < b.len() && b[end as int] == 0 && forall|k: int| 0 <= k < end ==> b[k] != 0);
            if c < end {
                assert(b[c] != 0);
            }
            if c > end {
                assert(b[end as int] != 0);
            }
        } else {
            assert(!exists|i: int| 0 <= i < b.len() && b[i] == 0);
        }
    }
    let mut prefix: Vec<u8> = Vec::new();
    let mut i: usize = 0;
    while i < end
        invariant
            i <= end,
            end <= 48,
            brand@.len() == 48,
            prefix@ == brand@.take(i as int),
        decreases end - i,
    {
        prefix.push(brand[i]);
        i = i + 1;
        assert(prefix@ =~= brand@.take(i as int));
    }
    let decoded = decode_utf8_lossy(prefix.as_slice());
    trim(decoded.as_str()).to_string()
}

/// Facts about the machine shown in the window header.
#[derive(Clone, Debug, PartialEq)]
pub struct SystemInfo {
    pub cpu: String,
    pub mem: String,
    pub os: String,
    pub screen: String,
    pub refresh_rate: String,
    pub header_device_name: String,
    pub header_info_text: String,
}

/// Separator between the parts of the header line.
pub open spec fn header_separator() -> Seq<char> {
    seq![' ', ' ', '|', ' ', ' ']
}

/// `parts` joined by the header separator.
pub open spec fn joined(parts: Seq<Seq<char>>) -> Seq<char>
    decreases parts.len(),
{
    if parts.len() == 0 {
        Seq::empty()
    } else if parts.len() == 1 {
        parts[0]
    } else {
        joined(parts.drop_last()) + header_separator() + parts.last()
    }
}

pub open spec fn part_if(present: bool, part: Seq<char>) -> Seq<Seq<char>> {
    if present { seq![part] } else { Seq::empty() }
}

/// The parts of the header line: CPU, RAM (unless unknown, "N/A"), OS,
/// BIOS version and display (with its refresh rate when known), each only
/// when there is something to show.
pub open spec fn header_parts(cpu: Seq<char>, mem: Seq<char>, os: Seq<char>, bios: Seq<char>, screen: Seq<char>, refresh: Seq<char>) -> Seq<Seq<char>> {
    part_if(cpu.len() > 0, "CPU: "@ + cpu)
        + part_if(mem != "N/A"@, "RAM: "@ + mem)
        + part_if(os.len() > 0, "OS: "@ + os)
        + part_if(bios.len() > 0, "BIOS: "@ + bios)
        + part_if(screen.len() > 0, if refresh.len() > 0 { "Display: "@ + screen + seq![' '] + refresh } else { "Display: "@ + screen })
}

fn same_text(a: &str, b: &str) -> (r: bool)
    ensures
        r == (a@ == b@),
{
    let n = a.unicode_len();
    if n != b.unicode_len() {
        return false;
    }
    let mut i: usize = 0;
    while i < n
        invariant
            n == a@.len(),
            n == b@.len(),
            i <= n,
            forall|k: int| 0 <= k < i ==> a@[k] == b@[k],
        decreases n - i,
    {
        if a.get_char(i) != b.get_char(i) {
            return false;
        }
        i = i + 1;
    }
    assert(a@ =~= b@);
    true
}

fn labeled(label: &str, value: &str) -> (r: String)
    ensures
        r@ == label@ + value@,
{
    let mut r = String::new();
    r.append(label);
    r.append(value);
    assert(Seq::<char>::empty() + label@ =~= label@);
    r
}

/// Appends `part` to the header line, after a separator unless it is the
/// first part (`any` tells whether parts came before).
fn append_part(info: &mut String, any: bool, parts: Ghost<Seq<Seq<char>>>, part: &str)
    requires
        old(info)@ == joined(parts@),
        any == (parts@.len() > 0),
    ensures
        final(info)@ == joined(parts@.push(part@)),
{
    let ghost ps = parts@;
    if any {
        info.append("  |  ");
        proof {
            reveal_strlit("  |  ");
        }
        info.append(part);
        assert(ps.push(part@).drop_last() =~= ps);
    } else {
        info.append(part);
        assert(info@ =~= part@);
        assert(ps.push(part@) =~= seq![part@]);
    }
}

/// The one-line summary in the header (see [`header_parts`]).
pub fn header_info_text(cpu: &str, mem: &str, os: &str, bios: &str, screen: &str, refresh: &str) -> (text: String)
    ensures
        text@ == joined(header_parts(cpu@, mem@, os@, bios@, screen@, refresh@)),
{
    proof {
        reveal_strlit("CPU: ");
        reveal_strlit("RAM: ");
        reveal_strlit("OS: ");
        reveal_strlit("BIOS: ");
        reveal_strlit("Display: ");
    }
    let mut info = String::new();
    let mut any = false;
    let ghost mut parts: Seq<Seq<char>> = Seq::empty();
    assert(info@ =~= joined(parts));
    if cpu.unicode_len() > 0 {
        let p = labeled("CPU: ", cpu);
        append_part(&mut info, any, Ghost(parts), p.as_str());
        proof { parts = parts.push(p@); }
        any = true;
    }
    assert(parts =~= part_if(cpu@.len() > 0, "CPU: "@ + cpu@));
    let ghost p1 = parts;
    if !same_text(mem, "N/A") {
        let p = labeled("RAM: ", mem);
        append_part(&mut info, any, Ghost(parts), p.as_str());
        proof { parts = parts.push(p@); }
        any = true;
    }
    assert(parts =~= p1 + part_if(mem@ != "N/A"@, "RAM: "@ + mem@));
    let ghost p2 = parts;
    if os.unicode_len() > 0 {
        let p = labeled("OS: ", os);
        append_part(&mut info, any, Ghost(parts), p.as_str());
        proof { parts = parts.push(p@); }
        any = true;
    }
    assert(parts =~= p2 + part_if(os@.len() > 0, "OS: "@ + os@));
    let ghost p3 = parts;
    if bios.unicode_len() > 0 {
        let p = labeled("BIOS: ", bios);
        append_part(&mut info, any, Ghost(parts), p.as_str());
        proof { parts = parts.push(p@); }
        any = true;
    }
    assert(parts =~= p3 + part_if(bios@.len() > 0, "BIOS: "@ + bios@));
    let ghost p4 = parts;
    if screen.unicode_len() > 0 {
        let mut p = labeled("Display: ", screen);
        if refresh.unicode_len() > 0 {
            p.append(" ");
            proof { reveal_strlit(" "); }
            p.append(refresh);
            assert(p@ =~= "Display: "@ + screen@ + seq![' '] + refresh@);
        }
        append_part(&mut info, any, Ghost(parts), p.as_str());
        proof { parts = parts.push(p@); }
        any = true;
    }
    assert(parts =~= p4 + part_if(
        screen@.len() > 0,
        if refresh@.len() > 0 { "Display: "@ + screen@ + seq![' '] + refresh@ } else { "Display: "@ + screen@ },
    ));
    assert(parts =~= header_parts(cpu@, mem@, os@, bios@, screen@, refresh@));
    info
}

/// The device name shown in the header: the mainboard type, or the
/// application name when unknown.
pub fn header_device_name(versions: &Option<VersionsData>) -> (name: String)
    ensures
        name@ == match versions {
            Some(v) => match v.mainboard_type {
                Some(t) => t@,
                None => "Framework Crate"@,
            },
            None => "Framework Crate"@,
        },
{
    match versions {
        Some(v) => match &v.mainboard_type {
            Some(t) => t.clone(),
            None => "Framework Crate".to_string(),
        },
        None => "Framework Crate".to_string(),
    }
}

} // verus!
