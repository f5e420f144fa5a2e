//! The record parser: splits a reply payload on the `"\r\n"` delimiter into
//! the four fields of a device record.

use vstd::prelude::*;
use vstd::string::StringSliceAdditionalSpecFns;
use vstd::utf8::decode_utf8;
use vstd::utf8::encode_utf8_decode_utf8;
use vstd::utf8::valid_utf8;

verus! {

/// True when the two-character delimiter `"\r\n"` stands at position `i` of `s`.
pub open spec fn crlf_at(s: Seq<char>, i: int) -> bool {
    &&& 0 <= i
    &&& i + 1 < s.len()
    &&& s[i] == '\r'
    &&& s[i + 1] == '\n'
}

/// Position of the first `"\r\n"` at or after `from`, or `s.len()` when
/// no delimiter follows.
pub open spec fn find_crlf_from(s: Seq<char>, from: int) -> int
    decreases s.len() - from,
{
    if from + 1 >= s.len() {
        s.len() as int
    } else if s[from] == '\r' && s[from + 1] == '\n' {
        from
    } else {
        find_crlf_from(s, from + 1)
    }
}

/// What `find_crlf_from` returns: the first delimiter position in
/// `[from, s.len())`, with nothing matching before it.
proof fn lemma_find_crlf_from(s: Seq<char>, from: int)
    requires
        0 <= from <= s.len(),
    ensures
        from <= find_crlf_from(s, from) <= s.len(),
        find_crlf_from(s, from) < s.len() ==> crlf_at(s, find_crlf_from(s, from)),
        forall|i: int| from <= i < find_crlf_from(s, from) ==> !crlf_at(s, i),
    decreases s.len() - from,
{
    if from + 1 >= s.len() {
    } else if s[from] == '\r' && s[from + 1] == '\n' {
    } else {
        lemma_find_crlf_from(s, from + 1);
    }
}

/// `find_crlf_from` returns exactly the delimiter position that nothing
/// earlier (at or after `from`) matches.
proof fn lemma_find_crlf_from_unique(s: Seq<char>, from: int, j: int)
    requires
        0 <= from <= j,
        crlf_at(s, j),
        forall|i: int| from <= i < j ==> !crlf_at(s, i),
    ensures
        find_crlf_from(s, from) == j,
    decreases j - from,
{
    if from < j {
        assert(!crlf_at(s, from));
        lemma_find_crlf_from_unique(s, from + 1, j);
    }
}

/// Searching within a suffix finds the same delimiter, shifted by the
/// suffix's offset.
proof fn lemma_find_crlf_from_offset(s: Seq<char>, a: int, from: int)
    requires
        0 <= a <= from <= s.len(),
    ensures
        find_crlf_from(s, from) == a + find_crlf_from(
            s.subrange(a, s.len() as int),
            from - a,
        ),
    decreases s.len() - from,
{
    let t = s.subrange(a, s.len() as int);
    if from + 1 >= s.len() {
        assert(find_crlf_from(t, from - a) == t.len());
    } else if s[from] == '\r' && s[from + 1] == '\n' {
        assert(t[from - a] == '\r' && t[from - a + 1] == '\n');
    } else {
        assert(!(t[from - a] == '\r' && t[from - a + 1] == '\n'));
        lemma_find_crlf_from_offset(s, a, from + 1);
    }
}

/// The segments of `s` between consecutive `"\r\n"` delimiters, in order;
/// a payload without a delimiter is one segment.
pub open spec fn split_crlf(s: Seq<char>) -> Seq<Seq<char>>
    decreases s.len(),
{
    let f = find_crlf_from(s, 0);
    if 0 <= f && f + 2 <= s.len() && s[f] == '\r' && s[f + 1] == '\n' {
        seq![s.subrange(0, f)] + split_crlf(s.subrange(f + 2, s.len() as int))
    } else {
        seq![s]
    }
}

/// The mathematical content of a device record: the four text fields.
#[verifier::ext_equal]
pub struct RecordView {
    pub name: Seq<char>,
    pub mac_id: Seq<char>,
    pub status: Seq<char>,
    pub owner_ip: Seq<char>,
}

/// The record a payload describes, if any: the first two segments give the
/// name and MAC, the third splits after one character into status and
/// owner address.  A payload with fewer than three segments, or whose third
/// segment is empty, yields no record.
pub open spec fn parse_spec(s: Seq<char>) -> Option<RecordView> {
    let segs = split_crlf(s);
    if segs.len() >= 3 && segs[2].len() >= 1 {
        Some(
            RecordView {
                name: segs[0],
                mac_id: segs[1],
                status: seq![segs[2][0]],
                owner_ip: segs[2].skip(1),
            },
        )
    } else {
        None
    }
}

/// One decoded reply: a device's self-reported name, MAC address, one-character
/// status flag, and the address that currently owns it.
#[derive(Debug, Clone)]
pub struct DeviceRecord {
    pub name: String,
    pub mac_id: String,
    pub status: String,
    pub owner_ip: String,
}

impl View for DeviceRecord {
    type V = RecordView;

    open spec fn view(&self) -> RecordView {
        RecordView {
            name: self.name@,
            mac_id: self.mac_id@,
            status: self.status@,
            owner_ip: self.owner_ip@,
        }
    }
}

/// Position of the first `"\r\n"` at or after `from`, or the character count
/// when no delimiter follows.
fn find_crlf(s: &str, from: usize) -> (r: usize)
    requires
        from <= s@.len(),
    ensures
        r == find_crlf_from(s@, from as int),
{
    let n = s.unicode_len();
    let mut i = from;
    loop
        invariant
            from <= i <= n,
            n == s@.len(),
            find_crlf_from(s@, from as int) == find_crlf_from(s@, i as int),
        decreases n - i,
    {
        if n - i <= 1 {
            assert(find_crlf_from(s@, i as int) == s@.len());
            return n;
        }
        let c1 = s.get_char(i);
        let c2 = s.get_char(i + 1);
        if c1 == '\r' && c2 == '\n' {
            assert(find_crlf_from(s@, i as int) == i);
            return i;
        }
        assert(find_crlf_from(s@, i as int) == find_crlf_from(s@, i as int + 1));
        i = i + 1;
    }
}

/// Decode one reply text into a device record: split on `"\r\n"`, take the
/// first three segments, and split the third after its first character.
/// Yields `None` on fewer than three segments or an empty third segment.
pub fn parse(s: &str) -> (r: Option<DeviceRecord>)
    ensures
        (r is Some) == (parse_spec(s@) is Some),
        r is Some ==> r.unwrap()@ == parse_spec(s@).unwrap(),
{
    let n = s.unicode_len();
    let i1 = find_crlf(s, 0);
    proof {
        lemma_find_crlf_from(s@, 0);
    }
    if i1 == n {
        proof {
            assert(split_crlf(s@) =~= seq![s@]);
        }
        return None;
    }
    let ghost tail1 = s@.subrange(i1 + 2, s@.len() as int);
    proof {
        assert(crlf_at(s@, i1 as int));
        assert(split_crlf(s@) =~= seq![s@.subrange(0, i1 as int)] + split_crlf(tail1));
        lemma_find_crlf_from_offset(s@, i1 + 2, i1 + 2);
    }
    let i2 = find_crlf(s, i1 + 2);
    proof {
        lemma_find_crlf_from(s@, i1 + 2);
        assert(find_crlf_from(tail1, 0) == i2 - (i1 + 2));
    }
    if i2 == n {
        proof {
            assert(find_crlf_from(tail1, 0) == tail1.len());
            assert(split_crlf(tail1) =~= seq![tail1]);
            assert(split_crlf(s@).len() == 2);
        }
        return None;
    }
    let ghost tail2 = s@.subrange(i2 + 2, s@.len() as int);
    proof {
        assert(crlf_at(s@, i2 as int));
        assert(crlf_at(tail1, i2 - (i1 + 2)));
        assert(split_crlf(tail1) =~= seq![tail1.subrange(0, i2 - (i1 + 2))] + split_crlf(
            tail1.subrange(i2 - (i1 + 2) + 2, tail1.len() as int),
        ));
        assert(tail1.subrange(0, i2 - (i1 + 2)) =~= s@.subrange(i1 + 2, i2 as int));
        assert(tail1.subrange(i2 - (i1 + 2) + 2, tail1.len() as int) =~= tail2);
        lemma_find_crlf_from_offset(s@, i2 + 2, i2 + 2);
    }
    let i3 = find_crlf(s, i2 + 2);
    proof {
        lemma_find_crlf_from(s@, i2 + 2);
        assert(find_crlf_from(tail2, 0) == i3 - (i2 + 2));
        if i3 < n {
            assert(crlf_at(s@, i3 as int));
            assert(crlf_at(tail2, i3 - (i2 + 2)));
            assert(split_crlf(tail2) =~= seq![tail2.subrange(0, i3 - (i2 + 2))] + split_crlf(
                tail2.subrange(i3 - (i2 + 2) + 2, tail2.len() as int),
            ));
        } else {
            assert(find_crlf_from(tail2, 0) == tail2.len());
            assert(split_crlf(tail2) =~= seq![tail2]);
        }
        assert(split_crlf(tail2)[0] =~= s@.subrange(i2 + 2, i3 as int));
        assert(split_crlf(s@).len() >= 3);
        assert(split_crlf(s@)[2] =~= s@.subrange(i2 + 2, i3 as int));
    }
    if i3 == i2 + 2 {
        assert(split_crlf(s@)[2].len() == 0);
        return None;
    }
    let name = s.substring_char(0, i1).to_owned();
    let mac_id = s.substring_char(i1 + 2, i2).to_owned();
    let status = s.substring_char(i2 + 2, i2 + 3).to_owned();
    let owner_ip = s.substring_char(i2 + 3, i3).to_owned();
    let r = DeviceRecord { name, mac_id, status, owner_ip };
    proof {
        let m = parse_spec(s@).unwrap();
        assert(r@.name =~= m.name);
        assert(r@.mac_id =~= m.mac_id);
        assert(r@.status =~= m.status);
        assert(r@.owner_ip =~= m.owner_ip);
    }
    Some(r)
}

/// The record a raw datagram payload describes, if any: the bytes must be a
/// valid UTF-8 encoding, and the decoded text must parse.
pub open spec fn payload_record(bytes: Seq<u8>) -> Option<RecordView> {
    if valid_utf8(bytes) {
        parse_spec(decode_utf8(bytes))
    } else {
        None
    }
}

/// Relies on core::str::from_utf8: it returns `Ok` exactly when the bytes are
/// a valid UTF-8 encoding, and the returned slice borrows those same bytes.
#[verifier::external_body]
fn bytes_as_str(bytes: &[u8]) -> (r: Option<&str>)
    ensures
        (r is Some) == valid_utf8(bytes@),
        r matches Some(t) ==> t.spec_bytes() == bytes@,
{
    core::str::from_utf8(bytes).ok()
}

/// Decode one raw datagram payload: UTF-8 validation first, then the record
/// split.  A payload that is not valid UTF-8 yields no record.
pub fn parse_payload(bytes: &[u8]) -> (r: Option<DeviceRecord>)
    ensures
        (r is Some) == (payload_record(bytes@) is Some),
        r is Some ==> r.unwrap()@ == payload_record(bytes@).unwrap(),
{
    match bytes_as_str(bytes) {
        Some(t) => {
            proof {
                encode_utf8_decode_utf8(t@);
                assert(decode_utf8(bytes@) == t@);
            }
            parse(t)
        },
        None => None,
    }
}

/// True when no `"\r\n"` delimiter occurs anywhere in `s`.
pub open spec fn has_no_crlf(s: Seq<char>) -> bool {
    forall|i: int| !crlf_at(s, i)
}

/// A payload without a delimiter is a single segment.
proof fn lemma_split_no_delim(s: Seq<char>)
    requires
        has_no_crlf(s),
    ensures
        split_crlf(s) == seq![s],
{
    lemma_find_crlf_from(s, 0);
    let f = find_crlf_from(s, 0);
    if f < s.len() {
        assert(crlf_at(s, f));
        assert(false);
    }
}

/// Splitting takes off a delimiter-free prefix as the first segment.
proof fn lemma_split_prefix(pre: Seq<char>, rest: Seq<char>)
    requires
        has_no_crlf(pre),
    ensures
        split_crlf(pre + seq!['\r', '\n'] + rest) == seq![pre] + split_crlf(rest),
{
    let s = pre + seq!['\r', '\n'] + rest;
    let a = pre.len() as int;
    assert(s[a] == '\r' && s[a + 1] == '\n');
    assert(crlf_at(s, a));
    assert forall|i: int| 0 <= i < a implies !crlf_at(s, i) by {
        if i + 1 < a {
            assert(s[i] == pre[i] && s[i + 1] == pre[i + 1]);
            assert(!crlf_at(pre, i));
        } else {
            assert(s[i + 1] == '\r');
        }
    }
    lemma_find_crlf_from_unique(s, 0, a);
    assert(s.subrange(0, a) =~= pre);
    assert(s.subrange(a + 2, s.len() as int) =~= rest);
    assert(split_crlf(s) == seq![pre] + split_crlf(rest));
}

/// A well-formed payload `name + "\r\n" + mac_id + "\r\n" + status + owner_ip`,
/// with no stray delimiter inside any field, parses to exactly those fields.
pub proof fn lemma_parse_well_formed(
    name: Seq<char>,
    mac_id: Seq<char>,
    status: char,
    owner_ip: Seq<char>,
)
    requires
        has_no_crlf(name),
        has_no_crlf(mac_id),
        has_no_crlf(seq![status] + owner_ip),
    ensures
        parse_spec(name + seq!['\r', '\n'] + mac_id + seq!['\r', '\n'] + seq![status] + owner_ip)
            == Some(RecordView { name, mac_id, status: seq![status], owner_ip }),
{
    let seg2 = seq![status] + owner_ip;
    let s = name + seq!['\r', '\n'] + mac_id + seq!['\r', '\n'] + seq![status] + owner_ip;
    let rest1 = mac_id + seq!['\r', '\n'] + seg2;
    assert(s =~= name + seq!['\r', '\n'] + rest1);
    lemma_split_prefix(name, rest1);
    assert(rest1 =~= mac_id + seq!['\r', '\n'] + seg2);
    lemma_split_prefix(mac_id, seg2);
    lemma_split_no_delim(seg2);
    let segs = split_crlf(s);
    assert(segs == seq![name] + (seq![mac_id] + seq![seg2]));
    assert(segs.len() == 3);
    assert(segs[0] == name);
    assert(segs[1] == mac_id);
    assert(segs[2] == seg2);
    assert(seg2[0] == status);
    assert(seg2.skip(1) =~= owner_ip);
    assert(parse_spec(s).unwrap() =~= RecordView { name, mac_id, status: seq![status], owner_ip });
}

/// Parsing is a pure function of the payload text: inputs that hold the same
/// characters parse to the same record.
pub proof fn lemma_parse_deterministic(s1: Seq<char>, s2: Seq<char>)
    requires
        s1 =~= s2,
    ensures
        parse_spec(s1) == parse_spec(s2),
{
}

/// A payload holding fewer than two `"\r\n"` delimiters (at most one position
/// where the delimiter stands) yields no record.
pub proof fn lemma_few_delimiters_no_record(s: Seq<char>)
    requires
        forall|i: int, j: int| crlf_at(s, i) && crlf_at(s, j) ==> i == j,
    ensures
        parse_spec(s) is None,
{
    lemma_find_crlf_from(s, 0);
    let f = find_crlf_from(s, 0);
    if f == s.len() {
        assert(split_crlf(s) =~= seq![s]);
    } else {
        assert(crlf_at(s, f));
        let tail = s.subrange(f + 2, s.len() as int);
        lemma_find_crlf_from_offset(s, f + 2, f + 2);
        lemma_find_crlf_from(s, f + 2);
        let g = find_crlf_from(s, f + 2);
        if g < s.len() {
            assert(crlf_at(s, g));
            assert(false);
        }
        assert(find_crlf_from(tail, 0) == tail.len());
        assert(split_crlf(tail) =~= seq![tail]);
        assert(split_crlf(s) =~= seq![s.subrange(0, f)] + split_crlf(tail));
        assert(split_crlf(s).len() == 2);
    }
}

/// A payload whose third segment is empty yields no record, rather than a
/// fault when splitting off the status character.
pub proof fn lemma_empty_third_segment_no_record(s: Seq<char>)
    requires
        split_crlf(s).len() >= 3,
        split_crlf(s)[2].len() == 0,
    ensures
        parse_spec(s) is None,
{
}

} // verus!
