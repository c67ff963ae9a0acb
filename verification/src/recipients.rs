//! Recipient-list handling: classifying the entries of a send form and
//! mapping uploaded CSV rows to recipient records.
//!
//! The CSV grammar itself (quoting, escaping) is the csv crate's work,
//! called behind a trusted wrapper; everything done with the parsed rows
//! is verified here.

use vstd::prelude::*;
use vstd::string::StringSliceAdditionalSpecFns;

use crate::bytes::contains_bytes;
use crate::bytes::contains_seq;

verus! {

/// An ASCII whitespace byte: space, tab, line feed, vertical tab, form
/// feed or carriage return.
pub open spec fn is_ascii_space(b: u8) -> bool {
    b == 32 || (9 <= b <= 13)
}

/// `s` with leading ASCII whitespace removed.
pub open spec fn trim_front(s: Seq<u8>) -> Seq<u8>
    decreases s.len(),
{
    if s.len() > 0 && is_ascii_space(s[0]) {
        trim_front(s.drop_first())
    } else {
        s
    }
}

/// `s` with trailing ASCII whitespace removed.
pub open spec fn trim_back(s: Seq<u8>) -> Seq<u8>
    decreases s.len(),
{
    if s.len() > 0 && is_ascii_space(s.last()) {
        trim_back(s.drop_last())
    } else {
        s
    }
}

/// `s` with leading and trailing ASCII whitespace removed.
pub open spec fn spec_trim(s: Seq<u8>) -> Seq<u8> {
    trim_back(trim_front(s))
}

/// Whether one byte is ASCII whitespace.
fn is_space_byte(b: u8) -> (r: bool)
    ensures
        r == is_ascii_space(b),
{
    b == 32 || (9 <= b && b <= 13)
}

/// A copy of `s` with leading and trailing ASCII whitespace removed.
pub fn trim_bytes(s: &[u8]) -> (out: Vec<u8>)
    ensures
        out@ == spec_trim(s@),
{
    let len = s.len();
    let mut lo: usize = 0;
    proof {
        assert(s@.subrange(0, len as int) =~= s@);
    }
    while lo < len && is_space_byte(s[lo])
        invariant
            0 <= lo <= len,
            len == s@.len(),
            trim_front(s@) == trim_front(s@.subrange(lo as int, len as int)),
        decreases len - lo,
    {
        proof {
            assert(s@.subrange(lo as int, len as int).drop_first() =~= s@.subrange(
                lo + 1,
                len as int,
            ));
        }
        lo = lo + 1;
    }
    proof {
        assert(trim_front(s@) =~= s@.subrange(lo as int, len as int));
    }
    let mut hi: usize = len;
    while hi > lo && is_space_byte(s[hi - 1])
        invariant
            lo <= hi <= len,
            len == s@.len(),
            trim_front(s@) == s@.subrange(lo as int, len as int),
            trim_back(s@.subrange(lo as int, len as int)) == trim_back(
                s@.subrange(lo as int, hi as int),
            ),
        decreases hi,
    {
        proof {
            assert(s@.subrange(lo as int, hi as int).drop_last() =~= s@.subrange(
                lo as int,
                hi - 1,
            ));
        }
        hi = hi - 1;
    }
    proof {
        assert(trim_back(s@.subrange(lo as int, hi as int)) =~= s@.subrange(lo as int, hi as int));
    }
    let mut out: Vec<u8> = Vec::new();
    let mut k: usize = lo;
    while k < hi
        invariant
            lo <= k <= hi <= len,
            len == s@.len(),
            out@ =~= s@.subrange(lo as int, k as int),
        decreases hi - k,
    {
        out.push(s[k]);
        proof {
            assert(out@ =~= s@.subrange(lo as int, k + 1));
        }
        k = k + 1;
    }
    proof {
        assert(out@ =~= spec_trim(s@));
    }
    out
}

/// The segments of `s` between occurrences of `sep`, scanning from
/// position `i` with the current segment starting at `start`: one segment
/// more than there are separators.
pub open spec fn split_from(s: Seq<u8>, sep: u8, i: nat, start: nat) -> Seq<Seq<u8>>
    recommends
        start <= i <= s.len(),
    decreases s.len() - i,
{
    if i >= s.len() {
        seq![s.subrange(if start <= s.len() {
            start as int
        } else {
            s.len() as int
        }, s.len() as int)]
    } else if s[i as int] == sep {
        seq![s.subrange(if start <= i {
            start as int
        } else {
            i as int
        }, i as int)] + split_from(s, sep, (i + 1) as nat, (i + 1) as nat)
    } else {
        split_from(s, sep, (i + 1) as nat, start)
    }
}

/// The segments of `s` between occurrences of `sep`.
pub open spec fn spec_split(s: Seq<u8>, sep: u8) -> Seq<Seq<u8>> {
    split_from(s, sep, 0, 0)
}

/// The segments of `s` between occurrences of `sep`, as fresh byte
/// strings.
pub fn split_bytes(s: &[u8], sep: u8) -> (out: Vec<Vec<u8>>)
    ensures
        out@.map_values(|v: Vec<u8>| v@) == spec_split(s@, sep),
{
    let len = s.len();
    let mut out: Vec<Vec<u8>> = Vec::new();
    let mut segment: Vec<u8> = Vec::new();
    let mut i: usize = 0;
    let mut start: usize = 0;
    while i < len
        invariant
            0 <= start <= i <= len,
            len == s@.len(),
            segment@ == s@.subrange(start as int, i as int),
            spec_split(s@, sep) == out@.map_values(|v: Vec<u8>| v@) + split_from(
                s@,
                sep,
                i as nat,
                start as nat,
            ),
        decreases len - i,
    {
        let b = s[i];
        if b == sep {
            let ghost prev = out@.map_values(|v: Vec<u8>| v@);
            out.push(segment);
            segment = Vec::new();
            proof {
                assert(out@.map_values(|v: Vec<u8>| v@) =~= prev.push(
                    s@.subrange(start as int, i as int),
                ));
                assert(prev + split_from(s@, sep, i as nat, start as nat) =~= out@.map_values(
                    |v: Vec<u8>| v@,
                ) + split_from(s@, sep, (i + 1) as nat, (i + 1) as nat));
            }
            start = i + 1;
        } else {
            segment.push(b);
            proof {
                assert(segment@ =~= s@.subrange(start as int, i + 1));
            }
        }
        i = i + 1;
    }
    let ghost prev = out@.map_values(|v: Vec<u8>| v@);
    out.push(segment);
    proof {
        assert(out@.map_values(|v: Vec<u8>| v@) =~= prev.push(
            s@.subrange(start as int, len as int),
        ));
        assert(out@.map_values(|v: Vec<u8>| v@) =~= prev + split_from(
            s@,
            sep,
            len as nat,
            start as nat,
        ));
    }
    out
}

/// Every byte is an ASCII decimal digit.
pub open spec fn all_digits(s: Seq<u8>) -> bool {
    forall|k: int| 0 <= k < s.len() ==> 48 <= #[trigger] s[k] <= 57
}

/// The number that a digit string denotes.
pub open spec fn dec_value(s: Seq<u8>) -> int
    decreases s.len(),
{
    if s.len() == 0 {
        0
    } else {
        dec_value(s.drop_last()) * 10 + (s.last() - 48)
    }
}

/// Ten to the `n`th power.
pub open spec fn pow10(n: nat) -> int
    decreases n,
{
    if n == 0 {
        1
    } else {
        10 * pow10((n - 1) as nat)
    }
}

/// The value of a sign-stripped digit string as a 32-bit integer, when it
/// is one.
pub open spec fn parse_digits_i32(digits: Seq<u8>, neg: bool) -> Option<i32> {
    if digits.len() > 0 && all_digits(digits) {
        if neg {
            if -dec_value(digits) >= i32::MIN {
                Some((-dec_value(digits)) as i32)
            } else {
                None
            }
        } else {
            if dec_value(digits) <= i32::MAX {
                Some(dec_value(digits) as i32)
            } else {
                None
            }
        }
    } else {
        None
    }
}

/// What `str::parse::<i32>` accepts: an optional sign, then one or more
/// decimal digits, denoting a value that fits 32 bits.
pub open spec fn spec_parse_i32(s: Seq<u8>) -> Option<i32> {
    if s.len() > 0 && (s[0] == 43 || s[0] == 45) {
        parse_digits_i32(s.subrange(1, s.len() as int), s[0] == 45)
    } else {
        parse_digits_i32(s, false)
    }
}

/// A leading zero does not change the number a digit string denotes.
proof fn lemma_dec_zero_front(s: Seq<u8>)
    requires
        s.len() > 0,
        s[0] == 48,
    ensures
        dec_value(s) == dec_value(s.drop_first()),
    decreases s.len(),
{
    if s.len() == 1 {
        assert(s.drop_first() =~= Seq::<u8>::empty());
        assert(s.drop_last() =~= Seq::<u8>::empty());
        assert(dec_value(Seq::<u8>::empty()) == 0);
        assert(dec_value(s) == dec_value(s.drop_last()) * 10 + (s.last() - 48));
    } else {
        lemma_dec_zero_front(s.drop_last());
        assert(s.drop_last().drop_first() =~= s.drop_first().drop_last());
        assert(s.drop_first().last() == s.last());
        assert(dec_value(s) == dec_value(s.drop_last()) * 10 + (s.last() - 48));
        assert(dec_value(s.drop_first()) == dec_value(s.drop_first().drop_last()) * 10 + (
        s.drop_first().last() - 48));
    }
}

/// A digit string of length `n` denotes a value below ten to the `n`th.
proof fn lemma_dec_value_bounds(s: Seq<u8>)
    requires
        all_digits(s),
    ensures
        0 <= dec_value(s) < pow10(s.len()),
    decreases s.len(),
{
    if s.len() > 0 {
        lemma_dec_value_bounds(s.drop_last());
    }
}

/// A digit string without a leading zero denotes at least ten to the
/// power of its length less one.
proof fn lemma_dec_value_lower(s: Seq<u8>)
    requires
        all_digits(s),
        s.len() > 0,
        s[0] >= 49,
    ensures
        dec_value(s) >= pow10((s.len() - 1) as nat),
    decreases s.len(),
{
    if s.len() == 1 {
        assert(s.drop_last() =~= Seq::<u8>::empty());
        assert(dec_value(Seq::<u8>::empty()) == 0);
        assert(s[0] == s.last());
        assert(pow10(0) == 1);
    } else {
        assert(s.drop_last()[0] == s[0]);
        lemma_dec_value_lower(s.drop_last());
        assert(48 <= s.last() <= 57);
        assert(pow10((s.len() - 1) as nat) == 10 * pow10((s.len() - 2) as nat));
    }
}

/// Ten to a larger power is at least ten to a smaller one.
proof fn lemma_pow10_mono(i: nat, j: nat)
    requires
        i <= j,
    ensures
        pow10(i) <= pow10(j),
        pow10(i) >= 1,
    decreases j,
{
    if i < j {
        lemma_pow10_mono(i, (j - 1) as nat);
    } else if j > 0 {
        lemma_pow10_mono((i - 1) as nat, (j - 1) as nat);
    }
}

/// Parses a decimal 32-bit integer exactly as `str::parse::<i32>` does:
/// an optional sign, then one or more digits, within the 32-bit range.
pub fn parse_i32_bytes(s: &[u8]) -> (r: Option<i32>)
    ensures
        r == spec_parse_i32(s@),
{
    let len = s.len();
    let mut idx: usize = 0;
    let mut neg = false;
    if len > 0 && (s[0] == 43 || s[0] == 45) {
        neg = s[0] == 45;
        idx = 1;
    }
    let ghost digits = s@.subrange(idx as int, len as int);
    proof {
        if idx == 0 {
            assert(digits =~= s@);
        }
        assert(spec_parse_i32(s@) == parse_digits_i32(digits, neg));
    }
    if idx >= len {
        return None;
    }
    let mut k: usize = idx;
    while k < len
        invariant
            idx <= k <= len,
            len == s@.len(),
            digits == s@.subrange(idx as int, len as int),
            spec_parse_i32(s@) == parse_digits_i32(digits, neg),
            forall|j: int| idx <= j < k ==> 48 <= #[trigger] s@[j] <= 57,
        decreases len - k,
    {
        let b = s[k];
        if b < 48 || b > 57 {
            proof {
                assert(digits[k - idx] == s@[k as int]);
            }
            return None;
        }
        k = k + 1;
    }
    proof {
        assert forall|j: int| 0 <= j < digits.len() implies 48 <= #[trigger] digits[j] <= 57 by {
            assert(digits[j] == s@[idx + j]);
        }
    }
    let mut z: usize = idx;
    while z < len && s[z] == 48
        invariant
            idx <= z <= len,
            len == s@.len(),
            digits == s@.subrange(idx as int, len as int),
            all_digits(digits),
            dec_value(digits) == dec_value(s@.subrange(z as int, len as int)),
        decreases len - z,
    {
        proof {
            let cur = s@.subrange(z as int, len as int);
            lemma_dec_zero_front(cur);
            assert(cur.drop_first() =~= s@.subrange(z + 1, len as int));
        }
        z = z + 1;
    }
    let ghost sig = s@.subrange(z as int, len as int);
    proof {
        assert forall|j: int| 0 <= j < sig.len() implies 48 <= #[trigger] sig[j] <= 57 by {
            assert(sig[j] == digits[(z - idx) + j]);
        }
        lemma_dec_value_bounds(sig);
    }
    if len - z > 10 {
        proof {
            assert(sig[0] == s@[z as int]);
            lemma_dec_value_lower(sig);
            lemma_pow10_mono(10, (sig.len() - 1) as nat);
            assert(pow10(10) == 10000000000) by {
                reveal_with_fuel(pow10, 12);
            }
        }
        return None;
    }
    proof {
        lemma_pow10_mono(sig.len(), 10);
        assert(pow10(10) == 10000000000) by {
            reveal_with_fuel(pow10, 12);
        }
    }
    let mut v: i64 = 0;
    let mut j: usize = z;
    proof {
        assert(s@.subrange(z as int, z as int) =~= Seq::<u8>::empty());
    }
    while j < len
        invariant
            z <= j <= len,
            len == s@.len(),
            len - z <= 10,
            all_digits(digits),
            digits == s@.subrange(idx as int, len as int),
            idx <= z <= len,
            forall|t: int| 0 <= t < digits.len() ==> 48 <= #[trigger] digits[t] <= 57,
            v == dec_value(s@.subrange(z as int, j as int)),
            0 <= v < pow10((j - z) as nat),
            pow10((len - z) as nat) <= 10000000000,
        decreases len - j,
    {
        let ghost pre = s@.subrange(z as int, j as int);
        proof {
            assert(s@.subrange(z as int, j + 1).drop_last() =~= pre);
            assert(s@.subrange(z as int, j + 1).last() == s@[j as int]);
            assert(s@[j as int] == digits[j - idx]);
            lemma_pow10_mono(((j + 1) - z) as nat, (len - z) as nat);
        }
        let b = s[j];
        v = v * 10 + (b - 48) as i64;
        j = j + 1;
    }
    proof {
        assert(dec_value(digits) == v);
    }
    if neg {
        if v > 2147483648i64 {
            return None;
        }
        Some((-v) as i32)
    } else {
        if v > 2147483647i64 {
            return None;
        }
        Some(v as i32)
    }
}

/// One entry of a send form's recipient list: a destination address when
/// it holds an `@`, otherwise the id of a recipient group.
#[derive(Debug, PartialEq, Eq)]
pub enum RecipientEntry {
    Address(Vec<u8>),
    Group(i32),
    Invalid,
}

/// Classifies one entry of a send form's recipient list: an entry with an
/// `@` is a destination address and is trimmed; any other entry must be a
/// group id in decimal.
pub fn classify_recipient_entry(entry: &[u8]) -> (r: RecipientEntry)
    ensures
        match r {
            RecipientEntry::Address(a) => contains_seq(entry@, "@".spec_bytes()) && a@ == spec_trim(
                entry@,
            ),
            RecipientEntry::Group(g) => !contains_seq(entry@, "@".spec_bytes()) && spec_parse_i32(
                entry@,
            ) == Some(g),
            RecipientEntry::Invalid => !contains_seq(entry@, "@".spec_bytes()) && spec_parse_i32(
                entry@,
            ) is None,
        },
{
    if contains_bytes(entry, "@".as_bytes()) {
        RecipientEntry::Address(trim_bytes(entry))
    } else {
        match parse_i32_bytes(entry) {
            Some(g) => RecipientEntry::Group(g),
            None => RecipientEntry::Invalid,
        }
    }
}

/// What the CSV import does with one parsed recipient, given the row the
/// store already holds for its address.
#[derive(Debug, PartialEq, Eq)]
pub enum RecipientUpsert {
    UpdateName { recipient_id: i32 },
    Keep { recipient_id: i32 },
    Insert,
}

/// Decides the upsert for one parsed CSV recipient: a row with the same
/// address keeps its id and is renamed only when the name differs; an
/// unknown address becomes a new row.
pub fn upsert_recipient_action(existing: &Option<(i32, Vec<u8>)>, csv_name: &[u8]) -> (r:
    RecipientUpsert)
    ensures
        match r {
            RecipientUpsert::UpdateName { recipient_id } => match existing {
                Some(row) => row.0 == recipient_id && row.1@ != csv_name@,
                None => false,
            },
            RecipientUpsert::Keep { recipient_id } => match existing {
                Some(row) => row.0 == recipient_id && row.1@ == csv_name@,
                None => false,
            },
            RecipientUpsert::Insert => existing is None,
        },
{
    match existing {
        Some(row) => {
            if crate::bytes::bytes_eq(row.1.as_slice(), csv_name) {
                RecipientUpsert::Keep { recipient_id: row.0 }
            } else {
                RecipientUpsert::UpdateName { recipient_id: row.0 }
            }
        },
        None => RecipientUpsert::Insert,
    }
}

/// The byte views of a sequence of byte strings.
pub open spec fn bytes_views(s: Seq<Vec<u8>>) -> Seq<Seq<u8>> {
    s.map_values(|v: Vec<u8>| v@)
}

/// The byte views of a sequence of rows of byte strings.
pub open spec fn rows_views(s: Seq<Vec<Vec<u8>>>) -> Seq<Seq<Seq<u8>>> {
    s.map_values(|r: Vec<Vec<u8>>| bytes_views(r@))
}

/// What the csv crate parses this text into: the header row and the data
/// rows, or nothing when the text is rejected. A function of the text
/// alone.
pub uninterp spec fn csv_table_of(text: Seq<u8>) -> Option<(Seq<Seq<u8>>, Seq<Seq<Seq<u8>>>)>;

/// Relies on csv::Reader over a byte slice: the first row is the header
/// row, every further row is a data row, and the outcome depends on the
/// text alone.
#[verifier::external_body]
fn csv_parse(text: &[u8]) -> (r: Option<(Vec<Vec<u8>>, Vec<Vec<Vec<u8>>>)>)
    ensures
        match r {
            Some(parsed) => match csv_table_of(text@) {
                Some(t) => bytes_views(parsed.0@) == t.0 && rows_views(parsed.1@) == t.1,
                None => false,
            },
            None => csv_table_of(text@) is None,
        },
{
    let mut rdr = csv::Reader::from_reader(text);
    let headers: Vec<Vec<u8>> = rdr.byte_headers().ok()?.iter().map(|h| h.to_vec()).collect();
    let mut rows: Vec<Vec<Vec<u8>>> = Vec::new();
    for record in rdr.byte_records() {
        rows.push(record.ok()?.iter().map(|f| f.to_vec()).collect());
    }
    Some((headers, rows))
}

/// The group names of one `groups` cell: the comma-separated segments,
/// trimmed, empty ones dropped, from segment `i` on.
pub open spec fn group_list_from(segs: Seq<Seq<u8>>, i: nat) -> Seq<Seq<u8>>
    decreases segs.len() - i,
{
    if i >= segs.len() {
        Seq::<Seq<u8>>::empty()
    } else {
        let t = spec_trim(segs[i as int]);
        if t.len() > 0 {
            seq![t] + group_list_from(segs, (i + 1) as nat)
        } else {
            group_list_from(segs, (i + 1) as nat)
        }
    }
}

/// The group names of one `groups` cell.
pub open spec fn spec_group_list(field: Seq<u8>) -> Seq<Seq<u8>> {
    group_list_from(spec_split(field, 44), 0)
}

/// The group names of one `groups` cell: comma-separated, trimmed, empty
/// names dropped.
pub fn group_list(field: &[u8]) -> (out: Vec<Vec<u8>>)
    ensures
        bytes_views(out@) == spec_group_list(field@),
{
    let segments = split_bytes(field, 44);
    let ghost segs = bytes_views(segments@);
    let n = segments.len();
    let mut out: Vec<Vec<u8>> = Vec::new();
    let mut i: usize = 0;
    proof {
        assert(bytes_views(segments@) == spec_split(field@, 44));
        assert(bytes_views(out@) + group_list_from(segs, 0) =~= group_list_from(segs, 0));
    }
    while i < n
        invariant
            0 <= i <= n,
            n == segments@.len(),
            segs == bytes_views(segments@),
            segs == spec_split(field@, 44),
            spec_group_list(field@) == bytes_views(out@) + group_list_from(segs, i as nat),
        decreases n - i,
    {
        proof {
            assert(segs[i as int] == segments@[i as int]@);
        }
        let t = trim_bytes(segments[i].as_slice());
        if t.len() > 0 {
            let ghost prev = bytes_views(out@);
            out.push(t);
            proof {
                assert(bytes_views(out@) =~= prev.push(spec_trim(segs[i as int])));
                assert(prev + group_list_from(segs, i as nat) =~= bytes_views(out@)
                    + group_list_from(segs, (i + 1) as nat));
            }
        }
        i = i + 1;
    }
    proof {
        assert(bytes_views(out@) + group_list_from(segs, i as nat) =~= bytes_views(out@));
    }
    out
}

/// One recipient of an uploaded CSV: the `name`, `email` and `groups`
/// columns, and every other non-empty cell as a named custom field.
#[derive(Debug, PartialEq, Eq)]
pub struct RecipientCsv {
    pub name: Vec<u8>,
    pub email: Vec<u8>,
    pub groups: Vec<Vec<u8>>,
    pub optional_fields: Vec<(Vec<u8>, Vec<u8>)>,
}

/// The mathematical value of one CSV recipient.
#[verifier::ext_equal]
pub ghost struct RecipientCsvView {
    pub name: Seq<u8>,
    pub email: Seq<u8>,
    pub groups: Seq<Seq<u8>>,
    pub optional_fields: Seq<(Seq<u8>, Seq<u8>)>,
}

impl View for RecipientCsv {
    type V = RecipientCsvView;

    open spec fn view(&self) -> RecipientCsvView {
        RecipientCsvView {
            name: self.name@,
            email: self.email@,
            groups: bytes_views(self.groups@),
            optional_fields: self.optional_fields@.map_values(
                |p: (Vec<u8>, Vec<u8>)| (p.0@, p.1@),
            ),
        }
    }
}

/// A CSV recipient before any cell was read.
pub open spec fn empty_recipient_csv() -> RecipientCsvView {
    RecipientCsvView {
        name: Seq::<u8>::empty(),
        email: Seq::<u8>::empty(),
        groups: Seq::<Seq<u8>>::empty(),
        optional_fields: Seq::<(Seq<u8>, Seq<u8>)>::empty(),
    }
}

/// Reading one row's cells from column `i` on into the accumulator: a
/// `name`, `email` or `groups` header stores its cell (a later duplicate
/// column wins), any other known header with a non-empty cell adds a
/// custom field in column order, and a cell beyond the header row is
/// ignored.
pub open spec fn spec_row_fold(
    headers: Seq<Seq<u8>>,
    row: Seq<Seq<u8>>,
    i: nat,
    acc: RecipientCsvView,
) -> RecipientCsvView
    decreases row.len() - i,
{
    if i >= row.len() {
        acc
    } else {
        let field = row[i as int];
        let next = if i < headers.len() {
            let h = headers[i as int];
            if h == "name".spec_bytes() {
                RecipientCsvView { name: field, ..acc }
            } else if h == "email".spec_bytes() {
                RecipientCsvView { email: field, ..acc }
            } else if h == "groups".spec_bytes() {
                RecipientCsvView { groups: spec_group_list(field), ..acc }
            } else if field.len() == 0 {
                acc
            } else {
                RecipientCsvView { optional_fields: acc.optional_fields.push((h, field)), ..acc }
            }
        } else {
            acc
        };
        spec_row_fold(headers, row, (i + 1) as nat, next)
    }
}

/// The recipient that one CSV row denotes under a header row.
pub open spec fn spec_recipient_of_row(headers: Seq<Seq<u8>>, row: Seq<Seq<u8>>) -> RecipientCsvView {
    spec_row_fold(headers, row, 0, empty_recipient_csv())
}

/// Reads one CSV row into a recipient record under the header row.
pub fn recipient_of_row(headers: &Vec<Vec<u8>>, row: &Vec<Vec<u8>>) -> (r: RecipientCsv)
    ensures
        r@ == spec_recipient_of_row(bytes_views(headers@), bytes_views(row@)),
{
    let ghost hs = bytes_views(headers@);
    let ghost rw = bytes_views(row@);
    let mut acc = RecipientCsv {
        name: Vec::new(),
        email: Vec::new(),
        groups: Vec::new(),
        optional_fields: Vec::new(),
    };
    proof {
        assert(acc@ =~= empty_recipient_csv());
    }
    let n = row.len();
    let n_headers = headers.len();
    let mut i: usize = 0;
    while i < n
        invariant
            0 <= i <= n,
            n == row@.len(),
            n_headers == headers@.len(),
            hs == bytes_views(headers@),
            rw == bytes_views(row@),
            spec_recipient_of_row(hs, rw) == spec_row_fold(hs, rw, i as nat, acc@),
        decreases n - i,
    {
        proof {
            assert(rw[i as int] == row@[i as int]@);
        }
        if i < n_headers {
            proof {
                assert(hs[i as int] == headers@[i as int]@);
            }
            let h = &headers[i];
            let field = &row[i];
            if crate::bytes::bytes_eq(h.as_slice(), "name".as_bytes()) {
                acc.name = crate::bytes::copy_bytes(field);
            } else if crate::bytes::bytes_eq(h.as_slice(), "email".as_bytes()) {
                acc.email = crate::bytes::copy_bytes(field);
            } else if crate::bytes::bytes_eq(h.as_slice(), "groups".as_bytes()) {
                acc.groups = group_list(field.as_slice());
            } else if field.len() > 0 {
                let ghost prev = acc@;
                acc.optional_fields.push(
                    (crate::bytes::copy_bytes(h), crate::bytes::copy_bytes(field)),
                );
                proof {
                    assert(acc@.optional_fields =~= prev.optional_fields.push(
                        (hs[i as int], rw[i as int]),
                    ));
                }
            }
        }
        i = i + 1;
    }
    acc
}

/// The recipients of the data rows from row `i` on.
pub open spec fn recipients_of_rows_from(
    headers: Seq<Seq<u8>>,
    rows: Seq<Seq<Seq<u8>>>,
    i: nat,
) -> Seq<RecipientCsvView>
    decreases rows.len() - i,
{
    if i >= rows.len() {
        Seq::<RecipientCsvView>::empty()
    } else {
        seq![spec_recipient_of_row(headers, rows[i as int])] + recipients_of_rows_from(
            headers,
            rows,
            (i + 1) as nat,
        )
    }
}

/// The mathematical value of a list of CSV recipients.
pub open spec fn recipients_views(s: Seq<RecipientCsv>) -> Seq<RecipientCsvView> {
    s.map_values(|x: RecipientCsv| x@)
}

/// Parses an uploaded CSV into recipient records: the csv crate reads the
/// header row and the data rows, and each data row is read into a
/// recipient under those headers. Returns nothing exactly when the csv
/// crate rejects the text.
pub fn parse_recipients_csv(text: &[u8]) -> (r: Option<Vec<RecipientCsv>>)
    ensures
        match r {
            Some(list) => match csv_table_of(text@) {
                Some(t) => recipients_views(list@) == recipients_of_rows_from(t.0, t.1, 0),
                None => false,
            },
            None => csv_table_of(text@) is None,
        },
{
    let parsed = match csv_parse(text) {
        Some(parsed) => parsed,
        None => {
            return None;
        },
    };
    let (headers, rows) = parsed;
    let ghost hs = bytes_views(headers@);
    let ghost rws = rows_views(rows@);
    let n = rows.len();
    let mut out: Vec<RecipientCsv> = Vec::new();
    let mut i: usize = 0;
    proof {
        assert(recipients_views(out@) + recipients_of_rows_from(hs, rws, 0)
            =~= recipients_of_rows_from(hs, rws, 0));
    }
    while i < n
        invariant
            0 <= i <= n,
            n == rows@.len(),
            hs == bytes_views(headers@),
            rws == rows_views(rows@),
            recipients_of_rows_from(hs, rws, 0) == recipients_views(out@)
                + recipients_of_rows_from(hs, rws, i as nat),
        decreases n - i,
    {
        proof {
            assert(rws[i as int] == bytes_views(rows@[i as int]@));
        }
        let ghost prev = recipients_views(out@);
        let rec = recipient_of_row(&headers, &rows[i]);
        out.push(rec);
        proof {
            assert(recipients_views(out@) =~= prev.push(spec_recipient_of_row(hs, rws[i as int])));
            assert(prev + recipients_of_rows_from(hs, rws, i as nat) =~= recipients_views(out@)
                + recipients_of_rows_from(hs, rws, (i + 1) as nat));
        }
        i = i + 1;
    }
    proof {
        assert(recipients_views(out@) + recipients_of_rows_from(hs, rws, i as nat)
            =~= recipients_views(out@));
    }
    Some(out)
}

/// The mathematical value of one address-book recipient row.
#[verifier::ext_equal]
pub ghost struct RecipientRowView {
    pub id: int,
    pub name: Seq<u8>,
    pub email: Seq<u8>,
    pub hub_id: int,
    pub created_at: Option<int>,
    pub updated_at: Option<int>,
}

/// The mathematical value of one group row.
#[verifier::ext_equal]
pub ghost struct GroupRowView {
    pub id: int,
    pub name: Seq<u8>,
    pub hub_id: int,
    pub created_at: Option<int>,
    pub updated_at: Option<int>,
}

/// The mathematical value of one group-membership row.
#[verifier::ext_equal]
pub ghost struct GroupLinkView {
    pub group_id: int,
    pub recipient_id: int,
}

/// The mathematical value of one custom-field row.
#[verifier::ext_equal]
pub ghost struct FieldRowView {
    pub recipient_id: int,
    pub field: Seq<u8>,
    pub value: Seq<u8>,
}

/// The view of an optional timestamp.
pub open spec fn opt_int(o: Option<i64>) -> Option<int> {
    match o {
        Some(v) => Some(v as int),
        None => None,
    }
}

impl View for crate::model::Recipient {
    type V = RecipientRowView;

    open spec fn view(&self) -> RecipientRowView {
        RecipientRowView {
            id: self.id as int,
            name: self.name@,
            email: self.email@,
            hub_id: self.hub_id as int,
            created_at: opt_int(self.created_at),
            updated_at: opt_int(self.updated_at),
        }
    }
}

impl View for crate::model::Group {
    type V = GroupRowView;

    open spec fn view(&self) -> GroupRowView {
        GroupRowView {
            id: self.id as int,
            name: self.name@,
            hub_id: self.hub_id as int,
            created_at: opt_int(self.created_at),
            updated_at: opt_int(self.updated_at),
        }
    }
}

impl View for crate::model::GroupRecipient {
    type V = GroupLinkView;

    open spec fn view(&self) -> GroupLinkView {
        GroupLinkView { group_id: self.group_id as int, recipient_id: self.recipient_id as int }
    }
}

impl View for crate::model::RecipientField {
    type V = FieldRowView;

    open spec fn view(&self) -> FieldRowView {
        FieldRowView {
            recipient_id: self.recipient_id as int,
            field: self.field@,
            value: self.value@,
        }
    }
}

/// The mathematical values of recipient rows.
pub open spec fn recipient_rows_views(s: Seq<crate::model::Recipient>) -> Seq<RecipientRowView> {
    s.map_values(|x: crate::model::Recipient| x@)
}

/// The mathematical values of group rows.
pub open spec fn group_rows_views(s: Seq<crate::model::Group>) -> Seq<GroupRowView> {
    s.map_values(|x: crate::model::Group| x@)
}

/// The mathematical values of membership rows.
pub open spec fn link_views(s: Seq<crate::model::GroupRecipient>) -> Seq<GroupLinkView> {
    s.map_values(|x: crate::model::GroupRecipient| x@)
}

/// The mathematical values of custom-field rows.
pub open spec fn field_rows_views(s: Seq<crate::model::RecipientField>) -> Seq<FieldRowView> {
    s.map_values(|x: crate::model::RecipientField| x@)
}

/// The custom field belongs to recipient `rid`.
pub open spec fn field_of(rid: int) -> spec_fn(FieldRowView) -> bool {
    |f: FieldRowView| f.recipient_id == rid
}

/// The position of the first group row with id `gid`, from `j` on, or -1.
pub open spec fn group_index(groups: Seq<GroupRowView>, gid: int, j: nat) -> int
    decreases groups.len() - j,
{
    if j >= groups.len() {
        -1
    } else if groups[j as int].id == gid {
        j as int
    } else {
        group_index(groups, gid, (j + 1) as nat)
    }
}

/// The groups of recipient `rid`: for each membership row in order, the
/// first group row it points to, memberships of unknown groups skipped.
pub open spec fn groups_of_links(
    links: Seq<GroupLinkView>,
    groups: Seq<GroupRowView>,
    rid: int,
    i: nat,
) -> Seq<GroupRowView>
    decreases links.len() - i,
{
    if i >= links.len() {
        Seq::<GroupRowView>::empty()
    } else {
        let rest = groups_of_links(links, groups, rid, (i + 1) as nat);
        if links[i as int].recipient_id == rid && group_index(groups, links[i as int].group_id, 0)
            >= 0 {
            seq![groups[group_index(groups, links[i as int].group_id, 0)]] + rest
        } else {
            rest
        }
    }
}

/// One address-book recipient with its custom fields and groups, as the
/// recipients page lists them.
pub struct RecipientDetails {
    pub recipient: crate::model::Recipient,
    pub fields: Vec<crate::model::RecipientField>,
    pub groups: Vec<crate::model::Group>,
}

/// The mathematical value of one listed recipient.
#[verifier::ext_equal]
pub ghost struct RecipientDetailsView {
    pub recipient: RecipientRowView,
    pub fields: Seq<FieldRowView>,
    pub groups: Seq<GroupRowView>,
}

impl View for RecipientDetails {
    type V = RecipientDetailsView;

    open spec fn view(&self) -> RecipientDetailsView {
        RecipientDetailsView {
            recipient: self.recipient@,
            fields: field_rows_views(self.fields@),
            groups: group_rows_views(self.groups@),
        }
    }
}

/// The mathematical values of listed recipients.
pub open spec fn details_views(s: Seq<RecipientDetails>) -> Seq<RecipientDetailsView> {
    s.map_values(|x: RecipientDetails| x@)
}

/// What the recipients page lists for each loaded recipient row, from row
/// `i` on: the row, its custom fields in row order, and its groups in
/// membership order.
pub open spec fn details_from(
    recs: Seq<RecipientRowView>,
    fields: Seq<FieldRowView>,
    links: Seq<GroupLinkView>,
    groups: Seq<GroupRowView>,
    i: nat,
) -> Seq<RecipientDetailsView>
    decreases recs.len() - i,
{
    if i >= recs.len() {
        Seq::<RecipientDetailsView>::empty()
    } else {
        seq![
            RecipientDetailsView {
                recipient: recs[i as int],
                fields: crate::store::select_matching(fields, field_of(recs[i as int].id)),
                groups: groups_of_links(links, groups, recs[i as int].id, 0),
            },
        ] + details_from(recs, fields, links, groups, (i + 1) as nat)
    }
}

/// A fresh copy of one custom-field row.
fn clone_field_row(x: &crate::model::RecipientField) -> (r: crate::model::RecipientField)
    ensures
        r@ == x@,
{
    crate::model::RecipientField {
        recipient_id: x.recipient_id,
        field: crate::bytes::copy_bytes(&x.field),
        value: crate::bytes::copy_bytes(&x.value),
    }
}

/// A fresh copy of one group row.
fn clone_group_row(x: &crate::model::Group) -> (r: crate::model::Group)
    ensures
        r@ == x@,
{
    crate::model::Group {
        id: x.id,
        name: crate::bytes::copy_bytes(&x.name),
        hub_id: x.hub_id,
        created_at: x.created_at,
        updated_at: x.updated_at,
    }
}

/// A fresh copy of one recipient row.
fn clone_recipient_row(x: &crate::model::Recipient) -> (r: crate::model::Recipient)
    ensures
        r@ == x@,
{
    crate::model::Recipient {
        id: x.id,
        name: crate::bytes::copy_bytes(&x.name),
        email: crate::bytes::copy_bytes(&x.email),
        hub_id: x.hub_id,
        created_at: x.created_at,
        updated_at: x.updated_at,
    }
}

/// The custom fields of recipient `rid`, in row order.
fn fields_for(fields: &Vec<crate::model::RecipientField>, rid: i32) -> (out: Vec<
    crate::model::RecipientField,
>)
    ensures
        field_rows_views(out@) == crate::store::select_matching(
            field_rows_views(fields@),
            field_of(rid as int),
        ),
{
    let ghost fs = field_rows_views(fields@);
    let ghost p = field_of(rid as int);
    let n = fields.len();
    let mut out: Vec<crate::model::RecipientField> = Vec::new();
    let mut i: usize = 0;
    proof {
        assert(field_rows_views(out@) + crate::store::select_from(fs, p, 0)
            =~= crate::store::select_from(fs, p, 0));
    }
    while i < n
        invariant
            0 <= i <= n,
            n == fields@.len(),
            fs == field_rows_views(fields@),
            p == field_of(rid as int),
            crate::store::select_matching(fs, p) == field_rows_views(out@)
                + crate::store::select_from(fs, p, i as nat),
        decreases n - i,
    {
        proof {
            assert(fs[i as int] == fields@[i as int]@);
        }
        if fields[i].recipient_id == rid {
            let ghost prev = field_rows_views(out@);
            out.push(clone_field_row(&fields[i]));
            proof {
                assert(field_rows_views(out@) =~= prev.push(fs[i as int]));
                assert(field_rows_views(out@) + crate::store::select_from(fs, p, (i + 1) as nat)
                    =~= prev + crate::store::select_from(fs, p, i as nat));
            }
        }
        i = i + 1;
    }
    proof {
        assert(field_rows_views(out@) + crate::store::select_from(fs, p, i as nat)
            =~= field_rows_views(out@));
    }
    out
}

/// The first group row with this id, if any, together with its position's
/// relation to `group_index`.
fn find_group(groups: &Vec<crate::model::Group>, gid: i32) -> (r: Option<crate::model::Group>)
    ensures
        match r {
            Some(g) => group_index(group_rows_views(groups@), gid as int, 0) >= 0 && g@
                == group_rows_views(groups@)[group_index(group_rows_views(groups@), gid as int, 0)],
            None => group_index(group_rows_views(groups@), gid as int, 0) == -1,
        },
{
    let ghost gs = group_rows_views(groups@);
    let n = groups.len();
    let mut k: usize = 0;
    while k < n
        invariant
            0 <= k <= n,
            n == groups@.len(),
            gs == group_rows_views(groups@),
            group_index(gs, gid as int, 0) == group_index(gs, gid as int, k as nat),
        decreases n - k,
    {
        proof {
            assert(gs[k as int] == groups@[k as int]@);
        }
        if groups[k].id == gid {
            return Some(clone_group_row(&groups[k]));
        }
        k = k + 1;
    }
    None
}

/// The groups of recipient `rid`, one per membership row in order,
/// memberships of unknown groups skipped.
fn groups_for(
    links: &Vec<crate::model::GroupRecipient>,
    groups: &Vec<crate::model::Group>,
    rid: i32,
) -> (out: Vec<crate::model::Group>)
    ensures
        group_rows_views(out@) == groups_of_links(
            link_views(links@),
            group_rows_views(groups@),
            rid as int,
            0,
        ),
{
    let ghost ls = link_views(links@);
    let ghost gs = group_rows_views(groups@);
    let n = links.len();
    let mut out: Vec<crate::model::Group> = Vec::new();
    let mut i: usize = 0;
    proof {
        assert(group_rows_views(out@) + groups_of_links(ls, gs, rid as int, 0) =~= groups_of_links(
            ls,
            gs,
            rid as int,
            0,
        ));
    }
    while i < n
        invariant
            0 <= i <= n,
            n == links@.len(),
            ls == link_views(links@),
            gs == group_rows_views(groups@),
            groups_of_links(ls, gs, rid as int, 0) == group_rows_views(out@) + groups_of_links(
                ls,
                gs,
                rid as int,
                i as nat,
            ),
        decreases n - i,
    {
        proof {
            assert(ls[i as int] == links@[i as int]@);
        }
        if links[i].recipient_id == rid {
            match find_group(groups, links[i].group_id) {
                Some(g) => {
                    let ghost prev = group_rows_views(out@);
                    out.push(g);
                    proof {
                        assert(group_rows_views(out@) =~= prev.push(
                            gs[group_index(gs, ls[i as int].group_id, 0)],
                        ));
                        assert(group_rows_views(out@) + groups_of_links(
                            ls,
                            gs,
                            rid as int,
                            (i + 1) as nat,
                        ) =~= prev + groups_of_links(ls, gs, rid as int, i as nat));
                    }
                },
                None => {
                },
            }
        }
        i = i + 1;
    }
    proof {
        assert(group_rows_views(out@) + groups_of_links(ls, gs, rid as int, i as nat)
            =~= group_rows_views(out@));
    }
    out
}

/// Joins loaded address-book rows as the recipients page lists them: each
/// recipient row, in order, with its custom fields and its groups.
pub fn get_hub_all_recipients(
    recipients: &Vec<crate::model::Recipient>,
    fields: &Vec<crate::model::RecipientField>,
    links: &Vec<crate::model::GroupRecipient>,
    groups: &Vec<crate::model::Group>,
) -> (out: Vec<RecipientDetails>)
    ensures
        details_views(out@) == details_from(
            recipient_rows_views(recipients@),
            field_rows_views(fields@),
            link_views(links@),
            group_rows_views(groups@),
            0,
        ),
{
    let ghost rs = recipient_rows_views(recipients@);
    let ghost fs = field_rows_views(fields@);
    let ghost ls = link_views(links@);
    let ghost gs = group_rows_views(groups@);
    let n = recipients.len();
    let mut out: Vec<RecipientDetails> = Vec::new();
    let mut i: usize = 0;
    proof {
        assert(details_views(out@) + details_from(rs, fs, ls, gs, 0) =~= details_from(
            rs,
            fs,
            ls,
            gs,
            0,
        ));
    }
    while i < n
        invariant
            0 <= i <= n,
            n == recipients@.len(),
            rs == recipient_rows_views(recipients@),
            fs == field_rows_views(fields@),
            ls == link_views(links@),
            gs == group_rows_views(groups@),
            details_from(rs, fs, ls, gs, 0) == details_views(out@) + details_from(
                rs,
                fs,
                ls,
                gs,
                i as nat,
            ),
        decreases n - i,
    {
        proof {
            assert(rs[i as int] == recipients@[i as int]@);
        }
        let rid = recipients[i].id;
        let details = RecipientDetails {
            recipient: clone_recipient_row(&recipients[i]),
            fields: fields_for(fields, rid),
            groups: groups_for(links, groups, rid),
        };
        let ghost prev = details_views(out@);
        let ghost dv = details@;
        out.push(details);
        proof {
            assert(details_views(out@) =~= prev.push(dv));
            assert(dv =~= details_from(rs, fs, ls, gs, i as nat)[0]);
            assert(details_views(out@) + details_from(rs, fs, ls, gs, (i + 1) as nat) =~= prev
                + details_from(rs, fs, ls, gs, i as nat));
        }
        i = i + 1;
    }
    proof {
        assert(details_views(out@) + details_from(rs, fs, ls, gs, i as nat) =~= details_views(
            out@,
        ));
    }
    out
}

} // verus!
