use vstd::prelude::*;

verus! {

/// Chip and board identifiers read from a device's serial-number string.
#[derive(Clone, Copy, Debug, PartialEq, Eq, Structural)]
pub struct IdentityRecord {
    pub cpid: u16,
    pub bdid: u8,
}

/// Which buttons the operator holds to bring the device into the loader.
#[derive(Clone, Copy, Debug, PartialEq, Eq, Structural)]
pub enum ButtonFamily {
    /// Power and home button.
    Home,
    /// Side and volume-down button.
    Volume,
}

/// The marker that precedes the four-digit chip id.
pub open spec fn cpid_marker() -> Seq<char> {
    seq!['C', 'P', 'I', 'D', ':']
}

/// The marker that precedes the two-digit board id.
pub open spec fn bdid_marker() -> Seq<char> {
    seq!['B', 'D', 'I', 'D', ':']
}

/// Number of hex digits of the chip id.
pub const CPID_DIGITS: usize = 4;

/// Number of hex digits of the board id.
pub const BDID_DIGITS: usize = 2;

/// `m` occurs in `s` at position `i`.
pub open spec fn occurs_at(s: Seq<char>, m: Seq<char>, i: int) -> bool {
    0 <= i && i + m.len() <= s.len() && s.subrange(i, i + m.len()) == m
}

/// The first position at or after `i` where `m` occurs in `s`.
pub open spec fn find_from(s: Seq<char>, m: Seq<char>, i: int) -> Option<int>
    decreases s.len() - i,
{
    if i < 0 || i >= s.len() || i + m.len() > s.len() {
        None
    } else if occurs_at(s, m, i) {
        Some(i)
    } else {
        find_from(s, m, i + 1)
    }
}

/// A position that `find_from` reports is an occurrence.
pub proof fn lemma_find_from_occurs(s: Seq<char>, m: Seq<char>, i: int)
    ensures
        find_from(s, m, i) matches Some(j) ==> i <= j && occurs_at(s, m, j),
    decreases s.len() - i,
{
    if !(i < 0 || i >= s.len() || i + m.len() > s.len()) && !occurs_at(s, m, i) {
        lemma_find_from_occurs(s, m, i + 1);
    }
}

/// The `width` characters that follow the first occurrence of `marker`, if
/// the marker occurs and that many characters follow it.
pub open spec fn field_after(s: Seq<char>, marker: Seq<char>, width: nat) -> Option<Seq<char>> {
    match find_from(s, marker, 0) {
        Some(i) => if i + marker.len() + width <= s.len() {
            Some(s.subrange(i + marker.len(), i + marker.len() + width))
        } else {
            None
        },
        None => None,
    }
}

/// Value of one hex digit (either case).
pub open spec fn hex_digit(c: char) -> Option<nat> {
    if '0' <= c && c <= '9' {
        Some((c as nat - '0' as nat) as nat)
    } else if 'a' <= c && c <= 'f' {
        Some((c as nat - 'a' as nat + 10) as nat)
    } else if 'A' <= c && c <= 'F' {
        Some((c as nat - 'A' as nat + 10) as nat)
    } else {
        None
    }
}

/// Value of a run of hex digits, most significant first; the empty run is 0.
pub open spec fn digits_value(s: Seq<char>) -> Option<nat>
    decreases s.len(),
{
    if s.len() == 0 {
        Some(0)
    } else {
        match (digits_value(s.drop_last()), hex_digit(s.last())) {
            (Some(v), Some(d)) => Some(v * 16 + d),
            _ => None,
        }
    }
}

/// Value of a non-empty hex number.
pub open spec fn hex_number(s: Seq<char>) -> Option<nat> {
    if s.len() == 0 {
        None
    } else {
        digits_value(s)
    }
}

/// The identity that a serial string carries, if both fields are there and
/// are hex numbers.
pub open spec fn identity_of(serial: Seq<char>) -> Option<IdentityRecord> {
    match (field_after(serial, cpid_marker(), 4), field_after(serial, bdid_marker(), 2)) {
        (Some(c), Some(b)) => match (hex_number(c), hex_number(b)) {
            (Some(cpid), Some(bdid)) => Some(
                IdentityRecord { cpid: cpid as u16, bdid: bdid as u8 },
            ),
            _ => None,
        },
        _ => None,
    }
}

/// The button table: chip 0x8015, or chip 0x8010 on boards 0x08, 0x0a, 0x0c
/// and 0x0e, have no home button.
pub open spec fn family_of(cpid: u16, bdid: u8) -> ButtonFamily {
    if cpid == 0x8015 || (cpid == 0x8010 && (bdid == 0x08 || bdid == 0x0a || bdid == 0x0c
        || bdid == 0x0e)) {
        ButtonFamily::Volume
    } else {
        ButtonFamily::Home
    }
}

proof fn lemma_digits_bound(s: Seq<char>)
    ensures
        digits_value(s) matches Some(v) ==> v < pow16(s.len()),
    decreases s.len(),
{
    if s.len() > 0 {
        lemma_digits_bound(s.drop_last());
        reveal_with_fuel(pow16, 2);
        assert(pow16(s.len() as nat) == 16 * pow16((s.len() - 1) as nat));
    }
}

/// 16 to the power `n`.
pub open spec fn pow16(n: nat) -> nat
    decreases n,
{
    if n == 0 {
        1
    } else {
        16 * pow16((n - 1) as nat)
    }
}

/// The characters of a string, in order.
fn chars_of(s: &str) -> (r: Vec<char>)
    ensures
        r@ == s@,
{
    let n = s.unicode_len();
    let mut r: Vec<char> = Vec::new();
    let mut i: usize = 0;
    while i < n
        invariant
            n == s@.len(),
            i <= n,
            r@ == s@.subrange(0, i as int),
        decreases n - i,
    {
        r.push(s.get_char(i));
        i = i + 1;
        assert(r@ =~= s@.subrange(0, i as int));
    }
    assert(r@ =~= s@);
    r
}

/// Position of the first occurrence of `m` in `s`.
fn find_marker(s: &Vec<char>, m: &Vec<char>) -> (r: Option<usize>)
    requires
        m@.len() > 0,
    ensures
        match r {
            Some(i) => find_from(s@, m@, 0) == Some(i as int) && i + m@.len() <= s@.len(),
            None => find_from(s@, m@, 0) is None,
        },
{
    let mut i: usize = 0;
    while i < s.len() && m.len() <= s.len() - i
        invariant
            find_from(s@, m@, 0) == find_from(s@, m@, i as int),
            i <= s@.len(),
        decreases s@.len() - i,
    {
        let mut k: usize = 0;
        let mut same = true;
        while k < m.len()
            invariant
                i + m@.len() <= s.len(),
                k <= m@.len(),
                same == (forall|j: int| 0 <= j < k ==> s@[i + j] == m@[j]),
            decreases m@.len() - k,
        {
            assert(i + k < s@.len());
            if s[i + k] != m[k] {
                same = false;
            }
            k = k + 1;
        }
        if same {
            assert(s@.subrange(i as int, i + m@.len()) =~= m@);
            return Some(i);
        }
        assert(!occurs_at(s@, m@, i as int)) by {
            if s@.subrange(i as int, i + m@.len()) == m@ {
                assert(forall|j: int| 0 <= j < m@.len() ==> s@[i + j] == #[trigger] m@[j]);
            }
        }
        i = i + 1;
    }
    None
}

/// The `width` characters after the first `marker` of `serial`.
fn field_of<'a>(serial: &'a str, chars: &Vec<char>, marker: &Vec<char>, width: usize) -> (r: Option<&'a str>)
    requires
        chars@ == serial@,
        marker@.len() > 0,
        width <= 4,
    ensures
        match r {
            Some(f) => field_after(serial@, marker@, width as nat) == Some(f@),
            None => field_after(serial@, marker@, width as nat) is None,
        },
{
    match find_marker(chars, marker) {
        Some(i) => {
            if marker.len() <= chars.len() - i && width <= chars.len() - i - marker.len() {
                let start = i + marker.len();
                Some(serial.substring_char(start, start + width))
            } else {
                None
            }
        },
        None => None,
    }
}

/// The four characters that follow `CPID:` in a serial string, or `None` when
/// the marker is missing or fewer than four characters follow it.
pub fn get_cpid_from_serial(serial: &str) -> (r: Option<&str>)
    ensures
        match r {
            Some(f) => field_after(serial@, cpid_marker(), 4) == Some(f@),
            None => field_after(serial@, cpid_marker(), 4) is None,
        },
{
    let chars = chars_of(serial);
    let marker = vec!['C', 'P', 'I', 'D', ':'];
    assert(marker@ =~= cpid_marker());
    field_of(serial, &chars, &marker, CPID_DIGITS)
}

/// The two characters that follow `BDID:` in a serial string, or `None` when
/// the marker is missing or fewer than two characters follow it.
pub fn get_bdid_from_serial(serial: &str) -> (r: Option<&str>)
    ensures
        match r {
            Some(f) => field_after(serial@, bdid_marker(), 2) == Some(f@),
            None => field_after(serial@, bdid_marker(), 2) is None,
        },
{
    let chars = chars_of(serial);
    let marker = vec!['B', 'D', 'I', 'D', ':'];
    assert(marker@ =~= bdid_marker());
    field_of(serial, &chars, &marker, BDID_DIGITS)
}

/// Reads a hex number of at most four digits.
pub fn parse_hex(digits: &str) -> (r: Option<u16>)
    requires
        digits@.len() <= 4,
    ensures
        match r {
            Some(v) => hex_number(digits@) == Some(v as nat),
            None => hex_number(digits@) is None,
        },
{
    let chars = chars_of(digits);
    if chars.len() == 0 {
        return None;
    }
    let mut value: u32 = 0;
    let mut i: usize = 0;
    while i < chars.len()
        invariant
            chars@ == digits@,
            chars@.len() <= 4,
            i <= chars@.len(),
            digits_value(chars@.subrange(0, i as int)) == Some(value as nat),
            value < pow16(i as nat),
            pow16(i as nat) <= 65536,
        decreases chars@.len() - i,
    {
        let c = chars[i];
        let d: u32 = if '0' <= c && c <= '9' {
            (c as u32) - ('0' as u32)
        } else if 'a' <= c && c <= 'f' {
            (c as u32) - ('a' as u32) + 10
        } else if 'A' <= c && c <= 'F' {
            (c as u32) - ('A' as u32) + 10
        } else {
            proof {
                assert(chars@.subrange(0, i + 1).drop_last() =~= chars@.subrange(0, i as int));
                assert(digits_value(chars@.subrange(0, i + 1)) is None);
                lemma_prefix_none(chars@, i + 1);
            }
            return None;
        };
        assert(chars@.subrange(0, i + 1).drop_last() =~= chars@.subrange(0, i as int));
        reveal_with_fuel(pow16, 5);
        assert(pow16(i as nat + 1) == 16 * pow16(i as nat));
        assert(pow16(i as nat + 1) <= 65536) by {
            assert(pow16(4) == 65536);
            if i == 0 {} else if i == 1 {} else if i == 2 {} else {}
        }
        value = value * 16 + d;
        i = i + 1;
    }
    assert(chars@.subrange(0, i as int) =~= chars@);
    assert(value < 65536);
    Some(value as u16)
}

/// A prefix that is no run of hex digits spoils every longer prefix.
proof fn lemma_prefix_none(s: Seq<char>, k: int)
    requires
        0 <= k <= s.len(),
        digits_value(s.subrange(0, k)) is None,
    ensures
        digits_value(s) is None,
    decreases s.len() - k,
{
    if k < s.len() {
        assert(s.subrange(0, k + 1).drop_last() =~= s.subrange(0, k));
        lemma_prefix_none(s, k + 1);
    } else {
        assert(s.subrange(0, k) =~= s);
    }
}

/// Reads the chip and board ids out of a serial string. Both markers must be
/// present and followed by hex digits, else no record is made.
pub fn parse_identity(serial: &str) -> (r: Option<IdentityRecord>)
    ensures
        r == identity_of(serial@),
        field_after(serial@, cpid_marker(), 4) is None ==> r is None,
        field_after(serial@, bdid_marker(), 2) is None ==> r is None,
{
    let c = match get_cpid_from_serial(serial) {
        Some(c) => c,
        None => return None,
    };
    let b = match get_bdid_from_serial(serial) {
        Some(b) => b,
        None => return None,
    };
    proof {
        lemma_find_from_occurs(serial@, cpid_marker(), 0);
        lemma_find_from_occurs(serial@, bdid_marker(), 0);
        assert(c@.len() == 4 && b@.len() == 2);
        lemma_digits_bound(c@);
        lemma_digits_bound(b@);
        reveal_with_fuel(pow16, 3);
    }
    match (parse_hex(c), parse_hex(b)) {
        (Some(cpid), Some(bdid)) => {
            assert(bdid < 256);
            Some(IdentityRecord { cpid, bdid: bdid as u8 })
        },
        _ => None,
    }
}

/// The button family of a device with these ids.
pub fn button_family(cpid: u16, bdid: u8) -> (r: ButtonFamily)
    ensures
        r == family_of(cpid, bdid),
{
    if cpid == 0x8015 || (cpid == 0x8010 && (bdid == 0x08 || bdid == 0x0a || bdid == 0x0c
        || bdid == 0x0e)) {
        ButtonFamily::Volume
    } else {
        ButtonFamily::Home
    }
}

/// A serial string in which `CPID:` or `BDID:` does not occur gives no
/// record at all.
pub proof fn lemma_identity_needs_both_markers(serial: Seq<char>)
    requires
        !(exists|i: int| occurs_at(serial, cpid_marker(), i)) || !(exists|i: int|
            occurs_at(serial, bdid_marker(), i)),
    ensures
        identity_of(serial) is None,
{
    lemma_find_from_occurs(serial, cpid_marker(), 0);
    lemma_find_from_occurs(serial, bdid_marker(), 0);
}

} // verus!
