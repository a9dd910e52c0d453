//! Request parameter parsing for the gateway.
//!
//! A query string is split on `&`; every part holding exactly one `=`
//! contributes a key/value pair, later bindings of a key shadowing earlier
//! ones. A block is then named either by `blockNumber` — `latest`,
//! `pending`, or a decimal height — or by `blockHash` as a hex field
//! element.

use crate::felt_hex::{felt_from_hex, felt_hex_ok, spec_felt_of_hex};
use crate::gateway::{StarknetError, StarknetErrorCode};
use crate::types::{BlockId, BlockTag};
use vstd::prelude::*;
use vstd::string::*;

verus! {

/// The segments of `s` between occurrences of `sep`: always one more
/// segment than separators, empty segments kept.
pub open spec fn spec_split(s: Seq<char>, sep: char) -> Seq<Seq<char>>
    decreases s.len(),
{
    if s.len() == 0 {
        seq![Seq::<char>::empty()]
    } else if s[0] == sep {
        seq![Seq::<char>::empty()] + spec_split(s.skip(1), sep)
    } else {
        let rest = spec_split(s.skip(1), sep);
        seq![seq![s[0]] + rest[0]] + rest.skip(1)
    }
}

/// A split has at least one segment.
pub proof fn lemma_split_nonempty(s: Seq<char>, sep: char)
    ensures
        spec_split(s, sep).len() >= 1,
    decreases s.len(),
{
    if s.len() > 0 {
        lemma_split_nonempty(s.skip(1), sep);
    }
}

/// A string without the separator is one segment: itself.
pub proof fn lemma_split_no_sep(s: Seq<char>, sep: char)
    requires
        forall|j: int| 0 <= j < s.len() ==> s[j] != sep,
    ensures
        spec_split(s, sep) =~~= seq![s],
    decreases s.len(),
{
    if s.len() > 0 {
        lemma_split_no_sep(s.skip(1), sep);
        assert(seq![s[0]] + s.skip(1) =~= s);
        assert(spec_split(s.skip(1), sep).skip(1) =~~= Seq::<Seq<char>>::empty());
    }
}

/// Splitting at the first separator: the prefix is the first segment, the
/// rest splits on its own.
pub proof fn lemma_split_at_sep(s: Seq<char>, sep: char, k: int)
    requires
        0 <= k < s.len(),
        s[k] == sep,
        forall|j: int| 0 <= j < k ==> s[j] != sep,
    ensures
        spec_split(s, sep) =~~= seq![s.take(k)] + spec_split(s.skip(k + 1), sep),
    decreases k,
{
    if k == 0 {
        assert(s.take(0) =~= Seq::<char>::empty());
    } else {
        let tail = s.skip(1);
        assert(tail[k - 1] == sep);
        lemma_split_at_sep(tail, sep, k - 1);
        lemma_split_nonempty(tail.skip(k), sep);
        assert(tail.skip(k) =~= s.skip(k + 1));
        assert(seq![s[0]] + tail.take(k - 1) =~= s.take(k));
        let rest = spec_split(tail, sep);
        assert(rest[0] == tail.take(k - 1));
        assert(rest.skip(1) =~~= spec_split(s.skip(k + 1), sep));
    }
}

/// Splits a string on a separator char.
fn split_str(s: &str, sep: char) -> (r: Vec<String>)
    ensures
        r@.len() == spec_split(s@, sep).len(),
        forall|i: int| 0 <= i < r@.len() ==> #[trigger] r@[i]@ == spec_split(s@, sep)[i],
{
    let n = s.unicode_len();
    let mut segs: Vec<String> = Vec::new();
    let mut start: usize = 0;
    let mut i: usize = 0;
    proof {
        assert(s@.skip(0) =~= s@);
        assert(segs@.map_values(|x: String| x@) =~~= Seq::<Seq<char>>::empty());
    }
    while i < n
        invariant
            n == s@.len(),
            0 <= start <= i <= n,
            forall|j: int| start <= j < i ==> s@[j] != sep,
            spec_split(s@, sep) =~~= segs@.map_values(|x: String| x@) + spec_split(
                s@.skip(start as int),
                sep,
            ),
        decreases n - i,
    {
        let c = s.get_char(i);
        if c == sep {
            let ghost pre = segs@;
            let seg = s.substring_char(start, i).to_owned();
            segs.push(seg);
            proof {
                let suffix = s@.skip(start as int);
                assert(suffix[i - start] == sep);
                assert forall|j: int| 0 <= j < i - start implies suffix[j] != sep by {
                    assert(suffix[j] == s@[start + j]);
                }
                lemma_split_at_sep(suffix, sep, i - start);
                assert(suffix.take(i - start) =~= s@.subrange(start as int, i as int));
                assert(suffix.skip(i - start + 1) =~= s@.skip(i + 1));
                assert(segs@.map_values(|x: String| x@) =~~= pre.map_values(|x: String| x@)
                    + seq![seg@]);
            }
            start = i + 1;
        }
        i = i + 1;
    }
    let ghost pre = segs@;
    let last = s.substring_char(start, n).to_owned();
    segs.push(last);
    proof {
        let suffix = s@.skip(start as int);
        assert forall|j: int| 0 <= j < suffix.len() implies suffix[j] != sep by {
            assert(suffix[j] == s@[start + j]);
        }
        lemma_split_no_sep(suffix, sep);
        assert(suffix =~= s@.subrange(start as int, n as int));
        assert(segs@.map_values(|x: String| x@) =~~= pre.map_values(|x: String| x@)
            + seq![last@]);
        assert(spec_split(s@, sep) =~~= segs@.map_values(|x: String| x@));
    }
    segs
}

/// The key/value pair a query segment contributes: exactly those segments
/// with exactly one `=` contribute, split there.
pub open spec fn spec_pair_of_segment(seg: Seq<char>) -> Option<(Seq<char>, Seq<char>)> {
    let parts = spec_split(seg, '=');
    if parts.len() == 2 {
        Some((parts[0], parts[1]))
    } else {
        None
    }
}

/// The pairs contributed by a sequence of segments, in order.
pub open spec fn spec_parse_segments(segs: Seq<Seq<char>>) -> Seq<(Seq<char>, Seq<char>)>
    decreases segs.len(),
{
    if segs.len() == 0 {
        Seq::empty()
    } else {
        let rest = spec_parse_segments(segs.skip(1));
        match spec_pair_of_segment(segs[0]) {
            Some(p) => seq![p] + rest,
            None => rest,
        }
    }
}

/// The key/value pairs of a query string, in order of appearance.
pub open spec fn spec_parse_query(q: Seq<char>) -> Seq<(Seq<char>, Seq<char>)> {
    spec_parse_segments(spec_split(q, '&'))
}

/// The value bound to a key, later bindings shadowing earlier ones.
pub open spec fn spec_lookup(pairs: Seq<(Seq<char>, Seq<char>)>, key: Seq<char>) -> Option<
    Seq<char>,
>
    decreases pairs.len(),
{
    if pairs.len() == 0 {
        None
    } else if pairs.last().0 == key {
        Some(pairs.last().1)
    } else {
        spec_lookup(pairs.drop_last(), key)
    }
}

/// The parsed query parameters of a request.
#[derive(Clone, PartialEq, Eq, Debug)]
pub struct QueryParams {
    pub pairs: Vec<(String, String)>,
}

impl QueryParams {
    /// The pairs as character sequences.
    pub open spec fn spec_pairs(self) -> Seq<(Seq<char>, Seq<char>)> {
        self.pairs@.map_values(|p: (String, String)| (p.0@, p.1@))
    }

    /// The value bound to a key.
    pub open spec fn spec_get(self, key: Seq<char>) -> Option<Seq<char>> {
        spec_lookup(self.spec_pairs(), key)
    }

    /// Looks a key up, later bindings shadowing earlier ones.
    pub fn get<'a>(&'a self, key: &str) -> (r: Option<&'a String>)
        ensures
            match r {
                Some(v) => self.spec_get(key@) == Some(v@),
                None => self.spec_get(key@) is None,
            },
    {
        let owned = key.to_owned();
        let mut i: usize = self.pairs.len();
        proof {
            assert(self.spec_pairs().take(i as int) =~~= self.spec_pairs());
        }
        while i > 0
            invariant
                0 <= i <= self.pairs@.len(),
                owned@ == key@,
                self.spec_get(key@) == spec_lookup(self.spec_pairs().take(i as int), key@),
            decreases i,
        {
            proof {
                assert(self.spec_pairs().take(i as int).last() == self.spec_pairs()[i - 1]);
                assert(self.spec_pairs().take(i as int).drop_last() =~~= self.spec_pairs().take(
                    i - 1,
                ));
                assert(self.spec_pairs()[i - 1] == (self.pairs@[i - 1].0@, self.pairs@[i - 1].1@));
            }
            if self.pairs[i - 1].0 == owned {
                return Some(&self.pairs[i - 1].1);
            }
            i = i - 1;
        }
        None
    }
}

/// Parses the query string of a request into its parameters.
pub fn get_params_from_request(query: &str) -> (r: QueryParams)
    ensures
        r.spec_pairs() == spec_parse_query(query@),
{
    let segs = split_str(query, '&');
    let mut pairs: Vec<(String, String)> = Vec::new();
    let ghost seg_views = spec_split(query@, '&');
    let mut i: usize = 0;
    proof {
        assert(seg_views.skip(0) =~~= seg_views);
        assert(pairs@.map_values(|p: (String, String)| (p.0@, p.1@)) =~~= Seq::<
            (Seq<char>, Seq<char>),
        >::empty());
    }
    while i < segs.len()
        invariant
            0 <= i <= segs@.len(),
            segs@.len() == seg_views.len(),
            forall|j: int| 0 <= j < segs@.len() ==> #[trigger] segs@[j]@ == seg_views[j],
            spec_parse_segments(seg_views) =~~= pairs@.map_values(
                |p: (String, String)| (p.0@, p.1@),
            ) + spec_parse_segments(seg_views.skip(i as int)),
        decreases segs@.len() - i,
    {
        let ghost pre = pairs@;
        let mut parts = split_str(segs[i].as_str(), '=');
        proof {
            assert(seg_views.skip(i as int)[0] == seg_views[i as int]);
            assert(seg_views.skip(i as int).skip(1) =~~= seg_views.skip(i + 1));
        }
        if parts.len() == 2 {
            let value = parts.remove(1);
            let name = parts.remove(0);
            proof {
                assert(name@ == spec_split(segs@[i as int]@, '=')[0]);
                assert(value@ == spec_split(segs@[i as int]@, '=')[1]);
            }
            pairs.push((name, value));
            proof {
                assert(pairs@.map_values(|p: (String, String)| (p.0@, p.1@)) =~~= pre.map_values(
                    |p: (String, String)| (p.0@, p.1@),
                ) + seq![(pairs@.last().0@, pairs@.last().1@)]);
            }
        }
        i = i + 1;
    }
    proof {
        assert(seg_views.skip(i as int).len() == 0);
        assert(spec_parse_segments(seg_views.skip(i as int)) =~~= Seq::<(Seq<char>, Seq<char>)>::empty());
    }
    let r = QueryParams { pairs };
    proof {
        assert(r.spec_pairs() =~~= spec_parse_query(query@));
    }
    r
}

/// Whether the char is a decimal digit.
pub open spec fn is_dec_digit(c: char) -> bool {
    '0' <= c && c <= '9'
}

/// Whether every char is a decimal digit.
pub open spec fn all_dec_digits(s: Seq<char>) -> bool {
    forall|i: int| 0 <= i < s.len() ==> is_dec_digit(#[trigger] s[i])
}

/// The value of a decimal digit string.
pub open spec fn spec_dec_val(s: Seq<char>) -> nat
    decreases s.len(),
{
    if s.len() == 0 {
        0
    } else {
        10 * spec_dec_val(s.drop_last()) + ((s.last() as int - '0' as int) as nat)
    }
}

/// What a string parses to as an unsigned 64-bit decimal: an optional
/// leading `+`, then at least one digit, and a value that fits.
pub open spec fn spec_parse_u64(s: Seq<char>) -> Option<u64> {
    let t = if s.len() >= 1 && s[0] == '+' {
        s.skip(1)
    } else {
        s
    };
    if t.len() >= 1 && all_dec_digits(t) && spec_dec_val(t) <= u64::MAX {
        Some(spec_dec_val(t) as u64)
    } else {
        None
    }
}

/// A longer digit string is worth at least as much as its prefix.
proof fn lemma_dec_val_prefix(t: Seq<char>, j: int)
    requires
        0 <= j <= t.len(),
    ensures
        spec_dec_val(t) >= spec_dec_val(t.take(j)),
    decreases t.len() - j,
{
    if j < t.len() {
        lemma_dec_val_prefix(t, j + 1);
        assert(t.take(j + 1).drop_last() =~= t.take(j));
    } else {
        assert(t.take(j) =~= t);
    }
}

/// Parses an unsigned 64-bit decimal.
pub fn parse_u64(s: &str) -> (r: Option<u64>)
    ensures
        r == spec_parse_u64(s@),
{
    let n = s.unicode_len();
    if n == 0 {
        return None;
    }
    let mut start: usize = 0;
    if s.get_char(0) == '+' {
        start = 1;
    }
    if start >= n {
        return None;
    }
    let ghost t = s@.skip(start as int);
    let mut acc: u64 = 0;
    let mut i: usize = start;
    while i < n
        invariant
            n == s@.len(),
            start <= i <= n,
            start == (if s@[0] == '+' {
                1int
            } else {
                0int
            }),
            n > start,
            t == s@.skip(start as int),
            all_dec_digits(t.take(i - start)),
            acc == spec_dec_val(t.take(i - start)),
        decreases n - i,
    {
        let c = s.get_char(i);
        proof {
            assert(t[i - start] == s@[i as int]);
        }
        if !(c >= '0' && c <= '9') {
            proof {
                assert(t =~= (if s@[0] == '+' {
                    s@.skip(1)
                } else {
                    s@
                }));
                assert(!all_dec_digits(t)) by {
                    assert(0 <= i - start < t.len() && !is_dec_digit(t[i - start]));
                }
            }
            return None;
        }
        let d = (c as u32 - 48) as u64;
        proof {
            assert(t.take(i - start + 1).drop_last() =~= t.take(i - start));
            assert(t.take(i - start + 1).last() == t[i - start]);
        }
        if acc > (u64::MAX - d) / 10 {
            proof {
                assert(t =~= (if s@[0] == '+' {
                    s@.skip(1)
                } else {
                    s@
                }));
                let big = spec_dec_val(t.take(i - start + 1));
                assert(big == 10 * acc + d);
                assert(10 * acc + d > u64::MAX) by {
                    assert(acc >= (u64::MAX - d) / 10 + 1);
                    assert(10 * ((u64::MAX - d) / 10 + 1) > u64::MAX - d) by (nonlinear_arith);
                    assert(10 * acc >= 10 * ((u64::MAX - d) / 10 + 1)) by (nonlinear_arith)
                        requires
                            acc >= (u64::MAX - d) / 10 + 1,
                    ;
                }
                lemma_dec_val_prefix(t, i - start + 1);
            }
            return None;
        }
        proof {
            assert(acc * 10 + d <= u64::MAX) by {
                assert(acc <= (u64::MAX - d) / 10);
                assert(10 * ((u64::MAX - d) / 10) <= u64::MAX - d) by (nonlinear_arith);
                assert(10 * acc <= 10 * ((u64::MAX - d) / 10)) by (nonlinear_arith)
                    requires
                        acc <= (u64::MAX - d) / 10,
                ;
            }
        }
        acc = acc * 10 + d;
        i = i + 1;
    }
    proof {
        assert(t.take(n - start) =~= t);
        assert(t =~= (if s@[0] == '+' {
            s@.skip(1)
        } else {
            s@
        }));
    }
    Some(acc)
}

/// The block a well-formed request names, or nothing where the request is
/// malformed.
pub open spec fn spec_block_id_of(qp: QueryParams) -> Option<BlockId> {
    match qp.spec_get("blockNumber"@) {
        Some(v) => {
            if v == "latest"@ {
                Some(BlockId::Tag(BlockTag::Latest))
            } else if v == "pending"@ {
                Some(BlockId::Tag(BlockTag::Pending))
            } else {
                match spec_parse_u64(v) {
                    Some(number) => Some(BlockId::Number(number)),
                    None => None,
                }
            }
        },
        None => match qp.spec_get("blockHash"@) {
            Some(v) => {
                if felt_hex_ok(v) {
                    Some(BlockId::Hash(spec_felt_of_hex(v)))
                } else {
                    None
                }
            },
            None => None,
        },
    }
}

/// Reads the block a request names: `blockNumber` — `latest`, `pending` or
/// a decimal height — or else `blockHash` as a hex field element. A request
/// naming neither, or naming one malformed, is answered with a
/// `MalformedRequest` error.
pub fn block_id_from_params(params: &QueryParams) -> (r: Result<BlockId, StarknetError>)
    ensures
        r matches Ok(b) ==> spec_block_id_of(*params) == Some(b),
        r is Ok <==> spec_block_id_of(*params) is Some,
        r matches Err(e) ==> e.code == StarknetErrorCode::MalformedRequest,
{
    match params.get("blockNumber") {
        Some(v) => {
            let latest = "latest".to_owned();
            let pending = "pending".to_owned();
            if *v == latest {
                Ok(BlockId::Tag(BlockTag::Latest))
            } else if *v == pending {
                Ok(BlockId::Tag(BlockTag::Pending))
            } else {
                match parse_u64(v.as_str()) {
                    Some(number) => Ok(BlockId::Number(number)),
                    None => Err(
                        StarknetError::new(
                            StarknetErrorCode::MalformedRequest,
                            "failed to parse block number".to_owned(),
                        ),
                    ),
                }
            }
        },
        None => match params.get("blockHash") {
            Some(v) => match felt_from_hex(v.as_str()) {
                Some(f) => Ok(BlockId::Hash(f)),
                None => Err(
                    StarknetError::new(
                        StarknetErrorCode::MalformedRequest,
                        "failed to parse block hash".to_owned(),
                    ),
                ),
            },
            None => Err(
                StarknetError::new(
                    StarknetErrorCode::MalformedRequest,
                    "block_number or block_hash not found".to_owned(),
                ),
            ),
        },
    }
}

/// Whether the request asks for the block to be included in the answer:
/// exactly where `includeBlock` is bound to `true`.
pub fn include_block_params(params: &QueryParams) -> (r: bool)
    ensures
        r == (params.spec_get("includeBlock"@) == Some("true"@)),
{
    match params.get("includeBlock") {
        Some(v) => {
            let yes = "true".to_owned();
            *v == yes
        },
        None => false,
    }
}

} // verus!
