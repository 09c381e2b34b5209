//! Pair-listing queries: sort-field parsing, pair filtering and multi-key
//! ordering.
//!
//! A sort query such as `"mfi_1h:desc,mfi_4h:asc"` is a comma-separated
//! list of fields, each an indicator key with an optional direction that
//! defaults to descending.

use vstd::prelude::*;
use vstd::seq_lib::*;
use vstd::string::StrSliceExecFns;
use vstd::string::StringExecFns;
use crate::scoring::lemma_to_multiset_insert;

verus! {

/// The indicator a listing can be sorted by.
#[derive(Debug, Clone, Copy, PartialEq, Eq, Structural)]
pub enum SortKey {
    Mfi1h,
    Mfi4h,
    Mfi1d,
    Mfi1w,
}

#[derive(Debug, Clone, Copy, PartialEq, Eq, Structural)]
pub enum SortDirection {
    Asc,
    Desc,
}

#[derive(Debug, Clone, Copy, PartialEq, Eq, Structural)]
pub struct SortField {
    pub key: SortKey,
    pub direction: SortDirection,
}

/// A pair listing query.
#[derive(Debug)]
pub struct PairsQuery {
    pub sort: Option<String>,
    pub favorite: Option<bool>,
    pub has_comments: Option<bool>,
}

#[derive(Debug)]
pub struct CommentPayload {
    pub comment: String,
}

/// One tracked pair; indicator values are `PCT_SCALE`-scaled.
#[derive(Debug, Clone)]
pub struct PairSnapshot {
    pub icon: String,
    pub pair: String,
    pub mfi_1h: i64,
    pub mfi_4h: i64,
    pub mfi_1d: i64,
    pub mfi_1w: i64,
    pub is_favorite: bool,
    pub comments: Vec<String>,
}

impl PairSnapshot {
    /// A snapshot with no indicator data yet.
    pub fn new(pair: String, icon: String) -> (s: PairSnapshot)
        ensures
            s.pair@ == pair@,
            s.icon@ == icon@,
            s.mfi_1h == 0,
            s.mfi_4h == 0,
            s.mfi_1d == 0,
            s.mfi_1w == 0,
            s.is_favorite == false,
            s.comments@.len() == 0,
    {
        PairSnapshot {
            icon,
            pair,
            mfi_1h: 0,
            mfi_4h: 0,
            mfi_1d: 0,
            mfi_1w: 0,
            is_favorite: false,
            comments: Vec::new(),
        }
    }
}

/// A rejected sort query.
#[derive(Debug)]
pub struct SortParseError {
    pub message: String,
}

impl SortParseError {
    pub fn new(message: String) -> (e: SortParseError)
        ensures
            e.message@ == message@,
    {
        SortParseError { message }
    }

    /// The error text.
    pub fn to_string(&self) -> (r: String)
        ensures
            r@ == self.message@,
    {
        self.message.clone()
    }
}

/// ASCII whitespace, as `trim` removes.
pub open spec fn is_ws(c: char) -> bool {
    c as u32 == 32 || c as u32 == 9 || c as u32 == 10 || c as u32 == 13
}

/// How many leading whitespace characters the chunk has.
pub open spec fn lead_ws(s: Seq<char>) -> int
    decreases s.len(),
{
    if s.len() > 0 && is_ws(s[0]) {
        1 + lead_ws(s.drop_first())
    } else {
        0
    }
}

/// How many trailing whitespace characters the trimmed-at-front chunk has.
pub open spec fn trail_ws(s: Seq<char>) -> int
    decreases s.len(),
{
    if s.len() > 0 && is_ws(s.last()) {
        1 + trail_ws(s.drop_last())
    } else {
        0
    }
}

/// The chunk with leading and trailing whitespace removed.
pub open spec fn trim_spec(s: Seq<char>) -> Seq<char> {
    s.skip(lead_ws(s)).take(s.len() - lead_ws(s) - trail_ws(s.skip(lead_ws(s))))
}

/// Index of the first occurrence of the character with this scalar value,
/// or the length.
pub open spec fn first_ch(s: Seq<char>, code: u32) -> int
    decreases s.len(),
{
    if s.len() == 0 {
        0
    } else if s[0] as u32 == code {
        0
    } else {
        1 + first_ch(s.drop_first(), code)
    }
}

proof fn lemma_first_ch_is(s: Seq<char>, code: u32, i: int)
    requires
        0 <= i <= s.len(),
        forall|j: int| 0 <= j < i ==> (#[trigger] s[j]) as u32 != code,
        i < s.len() ==> s[i] as u32 == code,
    ensures
        first_ch(s, code) == i,
    decreases i,
{
    if s.len() == 0 {
    } else if i == 0 {
    } else {
        lemma_first_ch_is(s.drop_first(), code, i - 1);
    }
}

proof fn lemma_lead_ws_is(s: Seq<char>, i: int)
    requires
        0 <= i <= s.len(),
        forall|j: int| 0 <= j < i ==> is_ws(#[trigger] s[j]),
        i < s.len() ==> !is_ws(s[i]),
    ensures
        lead_ws(s) == i,
    decreases i,
{
    if s.len() == 0 {
    } else if i == 0 {
    } else {
        lemma_lead_ws_is(s.drop_first(), i - 1);
    }
}

proof fn lemma_trail_ws_is(s: Seq<char>, i: int)
    requires
        0 <= i <= s.len(),
        forall|j: int| s.len() - i <= j < s.len() ==> is_ws(#[trigger] s[j]),
        i < s.len() ==> !is_ws(s[s.len() - i - 1]),
    ensures
        trail_ws(s) == i,
    decreases i,
{
    if s.len() == 0 {
    } else if i == 0 {
    } else {
        assert(forall|j: int|
            s.drop_last().len() - (i - 1) <= j < s.drop_last().len() ==> is_ws(
                #[trigger] s.drop_last()[j],
            ));
        lemma_trail_ws_is(s.drop_last(), i - 1);
    }
}

/// The key a chunk names, if any.
pub open spec fn key_of(c: Seq<char>) -> Option<SortKey> {
    if c == "mfi_1h"@ {
        Some(SortKey::Mfi1h)
    } else if c == "mfi_4h"@ {
        Some(SortKey::Mfi4h)
    } else if c == "mfi_1d"@ {
        Some(SortKey::Mfi1d)
    } else if c == "mfi_1w"@ {
        Some(SortKey::Mfi1w)
    } else {
        None
    }
}

/// The direction a chunk names, if any.
pub open spec fn dir_of(c: Seq<char>) -> Option<SortDirection> {
    if c == "asc"@ {
        Some(SortDirection::Asc)
    } else if c == "desc"@ {
        Some(SortDirection::Desc)
    } else {
        None
    }
}

/// What one trimmed chunk contributes: `None` on a malformed chunk,
/// `Some(None)` for an empty chunk, otherwise the parsed field.
pub open spec fn spec_parse_chunk(c: Seq<char>) -> Option<Option<SortField>> {
    if c.len() == 0 {
        Some(None)
    } else {
        let p = first_ch(c, 58);
        if p == c.len() {
            match key_of(c) {
                Some(k) => Some(Some(SortField { key: k, direction: SortDirection::Desc })),
                None => None,
            }
        } else {
            let key_part = c.take(p);
            let rest = c.skip(p + 1);
            match key_of(key_part) {
                None => None,
                Some(k) => {
                    if rest.len() == 0 {
                        if first_ch(rest, 58) == rest.len() {
                            Some(Some(SortField { key: k, direction: SortDirection::Desc }))
                        } else {
                            None
                        }
                    } else {
                        match dir_of(rest.take(first_ch(rest, 58))) {
                            None => None,
                            Some(d) => {
                                if first_ch(rest, 58) == rest.len() {
                                    Some(Some(SortField { key: k, direction: d }))
                                } else {
                                    None
                                }
                            },
                        }
                    }
                },
            }
        }
    }
}

/// The parsed field list of a whole sort string, or `None` if any chunk is
/// malformed.
pub open spec fn spec_parse_fields(s: Seq<char>) -> Option<Seq<SortField>>
    decreases s.len(),
{
    let d = first_ch(s, 44);
    let dd = if 0 <= d <= s.len() {
        d
    } else {
        s.len() as int
    };
    let chunk = spec_parse_chunk(trim_spec(s.take(dd)));
    if dd == s.len() {
        match chunk {
            None => None,
            Some(None) => Some(Seq::empty()),
            Some(Some(f)) => Some(seq![f]),
        }
    } else {
        match chunk {
            None => None,
            Some(co) => match spec_parse_fields(s.skip(dd + 1)) {
                None => None,
                Some(rest) => match co {
                    None => Some(rest),
                    Some(f) => Some(seq![f] + rest),
                },
            },
        }
    }
}

/// The message a malformed trimmed chunk produces: an unknown key is
/// reported first, then an unknown direction, then a second colon.
pub open spec fn chunk_error(c: Seq<char>) -> Seq<char> {
    let p = first_ch(c, 58);
    let key_part = if p == c.len() {
        c
    } else {
        c.take(p)
    };
    if key_of(key_part) is None {
        "Unsupported sort field: "@ + key_part + ". Use mfi_1h, mfi_4h, mfi_1d, or mfi_1w."@
    } else {
        let rest = c.skip(p + 1);
        let q = first_ch(rest, 58);
        if dir_of(rest.take(q)) is None {
            "Unsupported sort direction: "@ + rest.take(q) + ". Use asc or desc."@
        } else {
            "Invalid sort format: "@ + c
        }
    }
}

/// The error message of the first malformed chunk; meaningful only when
/// [`spec_parse_fields`] rejects the string.
pub open spec fn spec_parse_error(s: Seq<char>) -> Seq<char>
    decreases s.len(),
{
    let d = first_ch(s, 44);
    let dd = if 0 <= d <= s.len() {
        d
    } else {
        s.len() as int
    };
    let chunk = trim_spec(s.take(dd));
    if spec_parse_chunk(chunk) is None {
        chunk_error(chunk)
    } else if dd == s.len() {
        Seq::empty()
    } else {
        spec_parse_error(s.skip(dd + 1))
    }
}

/// Whether `trim` removes this character.
fn is_ws_char(c: char) -> (r: bool)
    ensures
        r == is_ws(c),
{
    let u = c as u32;
    u == 32 || u == 9 || u == 10 || u == 13
}

/// Whether two strings read the same.
pub fn str_eq(a: &str, b: &str) -> (r: bool)
    ensures
        r == (a@ == b@),
{
    let n = a.unicode_len();
    let m = b.unicode_len();
    if n != m {
        return false;
    }
    let mut i: usize = 0;
    while i < n
        invariant
            0 <= i <= n == a@.len(),
            n == b@.len(),
            forall|j: int| 0 <= j < i ==> a@[j] == b@[j],
        decreases n - i,
    {
        if a.get_char(i) != b.get_char(i) {
            return false;
        }
        i = i + 1;
    }
    proof {
        assert(a@ =~= b@);
    }
    true
}

/// Parses an indicator key.
pub fn parse_sort_key(value: &str) -> (r: Result<SortKey, SortParseError>)
    ensures
        match r {
            Ok(k) => key_of(value@) == Some(k),
            Err(e) => key_of(value@) is None && e.message@ == "Unsupported sort field: "@
                + value@ + ". Use mfi_1h, mfi_4h, mfi_1d, or mfi_1w."@,
        },
{
    if str_eq(value, "mfi_1h") {
        Ok(SortKey::Mfi1h)
    } else if str_eq(value, "mfi_4h") {
        Ok(SortKey::Mfi4h)
    } else if str_eq(value, "mfi_1d") {
        Ok(SortKey::Mfi1d)
    } else if str_eq(value, "mfi_1w") {
        Ok(SortKey::Mfi1w)
    } else {
        Err(
            SortParseError::new(
                "Unsupported sort field: ".to_owned().concat(value).concat(
                    ". Use mfi_1h, mfi_4h, mfi_1d, or mfi_1w.",
                ),
            ),
        )
    }
}

/// Parses a sort direction.
pub fn parse_sort_direction(value: &str) -> (r: Result<SortDirection, SortParseError>)
    ensures
        match r {
            Ok(d) => dir_of(value@) == Some(d),
            Err(e) => dir_of(value@) is None && e.message@ == "Unsupported sort direction: "@
                + value@ + ". Use asc or desc."@,
        },
{
    if str_eq(value, "asc") {
        Ok(SortDirection::Asc)
    } else if str_eq(value, "desc") {
        Ok(SortDirection::Desc)
    } else {
        Err(
            SortParseError::new(
                "Unsupported sort direction: ".to_owned().concat(value).concat(
                    ". Use asc or desc.",
                ),
            ),
        )
    }
}

/// Parses a comma-separated sort query: empty chunks are skipped, a missing
/// direction defaults to descending, and a malformed chunk rejects the
/// whole query.
#[verifier::rlimit(100)]
pub fn parse_sort_fields(raw: &str) -> (r: Result<Vec<SortField>, SortParseError>)
    ensures
        match r {
            Ok(v) => spec_parse_fields(raw@) == Some(v@),
            Err(e) => spec_parse_fields(raw@) is None && e.message@ == spec_parse_error(raw@),
        },
{
    let n = raw.unicode_len();
    let mut result: Vec<SortField> = Vec::new();
    let mut pos: usize = 0;
    let mut done = false;
    proof {
        assert(raw@.skip(0) =~= raw@);
        assert(spec_parse_error(raw@.skip(0)) == spec_parse_error(raw@));
        match spec_parse_fields(raw@) {
            None => {
            },
            Some(rest) => {
                assert(result@ + rest =~= rest);
            },
        }
    }
    while !done
        invariant
            0 <= pos <= n + 1,
            n == raw@.len(),
            !done ==> pos <= n,
            !done ==> spec_parse_fields(raw@) == (match spec_parse_fields(
                raw@.skip(pos as int),
            ) {
                None => None::<Seq<SortField>>,
                Some(rest) => Some(result@ + rest),
            }),
            !done ==> spec_parse_error(raw@) == spec_parse_error(raw@.skip(pos as int)),
            done ==> spec_parse_fields(raw@) == Some(result@),
        decreases n + 1 - pos + (if done {
            0int
        } else {
            1int
        }),
    {
        let ghost rem = raw@.skip(pos as int);
        let ghost result0 = result@;
        // Find the end of this chunk.
        let mut e: usize = pos;
        while e < n && (raw.get_char(e) as u32) != 44
            invariant
                pos <= e <= n == raw@.len(),
                forall|j: int| pos <= j < e ==> (#[trigger] raw@[j]) as u32 != 44,
            decreases n - e,
        {
            e = e + 1;
        }
        proof {
            assert(forall|j: int|
                0 <= j < e - pos ==> (#[trigger] rem[j]) as u32 != 44);
            if e < n {
                assert(rem[e - pos] as u32 == 44);
            }
            lemma_first_ch_is(rem, 44, e - pos);
        }
        // Trim the chunk.
        let ghost chunk0 = rem.take(e - pos);
        let mut cs: usize = pos;
        while cs < e && is_ws_char(raw.get_char(cs))
            invariant
                pos <= cs <= e <= n == raw@.len(),
                forall|j: int| pos <= j < cs ==> is_ws(#[trigger] raw@[j]),
            decreases e - cs,
        {
            cs = cs + 1;
        }
        let mut ce: usize = e;
        while ce > cs && is_ws_char(raw.get_char(ce - 1))
            invariant
                cs <= ce <= e <= n == raw@.len(),
                forall|j: int| ce <= j < e ==> is_ws(#[trigger] raw@[j]),
            decreases ce,
        {
            ce = ce - 1;
        }
        proof {
            assert(forall|j: int|
                0 <= j < cs - pos ==> is_ws(#[trigger] chunk0[j]));
            if cs < e {
                assert(!is_ws(chunk0[cs - pos]));
            }
            lemma_lead_ws_is(chunk0, cs - pos);
            let ghost after_lead = chunk0.skip(cs - pos);
            assert(forall|j: int|
                after_lead.len() - (e - ce) <= j < after_lead.len() ==> is_ws(
                    #[trigger] after_lead[j],
                ));
            if ce > cs {
                assert(!is_ws(after_lead[after_lead.len() - (e - ce) - 1]));
            }
            lemma_trail_ws_is(after_lead, e - ce);
            assert(trim_spec(chunk0) =~= raw@.skip(cs as int).take(ce - cs));
        }
        let ghost trimmed = trim_spec(chunk0);
        // Parse the trimmed chunk.
        if cs < ce {
            // Find the first colon within the trimmed chunk.
            let mut p: usize = cs;
            while p < ce && (raw.get_char(p) as u32) != 58
                invariant
                    cs <= p <= ce <= n == raw@.len(),
                    forall|j: int| cs <= j < p ==> (#[trigger] raw@[j]) as u32 != 58,
                decreases ce - p,
            {
                p = p + 1;
            }
            proof {
                assert(forall|j: int|
                    0 <= j < p - cs ==> (#[trigger] trimmed[j]) as u32 != 58);
                if p < ce {
                    assert(trimmed[p - cs] as u32 == 58);
                }
                lemma_first_ch_is(trimmed, 58, p - cs);
            }
            let field_str = raw.substring_char(cs, p);
            let key = match parse_sort_key(field_str) {
                Ok(k) => k,
                Err(err) => {
                    proof {
                        assert(field_str@ =~= (if p < ce {
                            trimmed.take(p - cs)
                        } else {
                            trimmed
                        }));
                        assert(spec_parse_chunk(trimmed) is None);
                        assert(rem.take(e - pos) =~= chunk0);
                        assert(spec_parse_error(rem) == chunk_error(trimmed));
                        assert(chunk_error(trimmed) == err.message@);
                    }
                    return Err(err);
                },
            };
            proof {
                assert(field_str@ =~= (if p < ce {
                    trimmed.take(p - cs)
                } else {
                    trimmed
                }));
            }
            let direction: SortDirection;
            if p < ce {
                // There is a colon: parse the direction, then reject a
                // second colon.
                let mut q: usize = p + 1;
                while q < ce && (raw.get_char(q) as u32) != 58
                    invariant
                        p + 1 <= q <= ce <= n == raw@.len(),
                        forall|j: int| p + 1 <= j < q ==> (#[trigger] raw@[j]) as u32 != 58,
                    decreases ce - q,
                {
                    q = q + 1;
                }
                let ghost rest = trimmed.skip(p - cs + 1);
                proof {
                    assert(forall|j: int|
                        0 <= j < q - p - 1 ==> (#[trigger] rest[j]) as u32 != 58);
                    if q < ce {
                        assert(rest[q - p - 1] as u32 == 58);
                    }
                    lemma_first_ch_is(rest, 58, q - p - 1);
                }
                if p + 1 == ce {
                    // Empty direction part: default.
                    direction = SortDirection::Desc;
                    proof {
                        assert(rest.len() == 0);
                    }
                } else {
                    let dir_str = raw.substring_char(p + 1, q);
                    let d = match parse_sort_direction(dir_str) {
                        Ok(d) => d,
                        Err(err) => {
                            proof {
                                assert(dir_str@ =~= rest.take(q - p - 1));
                                assert(spec_parse_chunk(trimmed) is None);
                                assert(rem.take(e - pos) =~= chunk0);
                                assert(spec_parse_error(rem) == chunk_error(trimmed));
                                assert(chunk_error(trimmed) == err.message@);
                            }
                            return Err(err);
                        },
                    };
                    proof {
                        assert(dir_str@ =~= rest.take(q - p - 1));
                    }
                    if q < ce {
                        let chunk_str = raw.substring_char(cs, ce);
                        let err = SortParseError::new(
                            "Invalid sort format: ".to_owned().concat(chunk_str),
                        );
                        proof {
                            assert(spec_parse_chunk(trimmed) is None);
                            assert(chunk_str@ =~= trimmed);
                            assert(rem.take(e - pos) =~= chunk0);
                            assert(spec_parse_error(rem) == chunk_error(trimmed));
                            assert(chunk_error(trimmed) == err.message@);
                        }
                        return Err(err);
                    }
                    direction = d;
                }
            } else {
                direction = SortDirection::Desc;
            }
            result.push(SortField { key, direction });
        }
        // Advance past the comma, or finish.
        proof {
            let d = first_ch(rem, 44);
            assert(d == e - pos);
            assert(rem.take(d) =~= chunk0);
            if cs == ce {
                assert(trimmed.len() == 0);
                assert(spec_parse_chunk(trimmed) == Some(Option::<SortField>::None));
                assert(result@ == result0);
            }
            let chunk = spec_parse_chunk(trimmed);
            assert(chunk is Some);
            let co = chunk->Some_0;
            if cs < ce {
                assert(result@ == result0.push(co->Some_0));
            }
            if e < n {
                assert(rem.skip(d + 1) =~= raw@.skip(e + 1));
                assert(spec_parse_error(rem) == spec_parse_error(raw@.skip(e + 1)));
                match spec_parse_fields(raw@.skip(e + 1)) {
                    None => {
                        assert(spec_parse_fields(rem) is None);
                    },
                    Some(rest) => {
                        match co {
                            None => {
                                assert(spec_parse_fields(rem) == Some(rest));
                            },
                            Some(f) => {
                                assert(spec_parse_fields(rem) == Some(seq![f] + rest));
                                assert(result0 + (seq![f] + rest) =~= result@ + rest);
                            },
                        }
                    },
                }
            } else {
                assert(d == rem.len());
                match co {
                    None => {
                        assert(spec_parse_fields(rem) == Some(Seq::<SortField>::empty()));
                        assert(result0 + Seq::<SortField>::empty() =~= result@);
                    },
                    Some(f) => {
                        assert(spec_parse_fields(rem) == Some(seq![f]));
                        assert(result0 + seq![f] =~= result@);
                    },
                }
            }
        }
        if e < n {
            pos = e + 1;
        } else {
            done = true;
        }
    }
    Ok(result)
}

/// Whether a pair satisfies the query's favorite and comment filters.
pub fn matches_filters(pair: &PairSnapshot, query: &PairsQuery) -> (r: bool)
    ensures
        r == ({
            &&& (query.favorite matches Some(f) ==> pair.is_favorite == f)
            &&& (query.has_comments matches Some(h) ==> (pair.comments@.len() > 0) == h)
        }),
{
    if let Some(is_favorite) = query.favorite {
        if pair.is_favorite != is_favorite {
            return false;
        }
    }
    if let Some(has_comments) = query.has_comments {
        let pair_has_comments = pair.comments.len() > 0;
        if pair_has_comments != has_comments {
            return false;
        }
    }
    true
}


/// What a listing returns for one pair: indicator values rounded to two
/// decimal places, still `PCT_SCALE`-scaled.
#[derive(Debug, Clone)]
pub struct PairResponse {
    pub icon: String,
    pub pair: String,
    pub mfi_1h: i64,
    pub mfi_4h: i64,
    pub mfi_1d: i64,
    pub mfi_1w: i64,
    pub is_favorite: bool,
    pub comments: Vec<String>,
}

/// A `PCT_SCALE` value rounded, half away from zero, to two decimal places.
pub open spec fn round_2dp(v: int) -> int {
    if v >= 0 {
        ((v + 50) / 100) * 100
    } else {
        -(((-v + 50) / 100) * 100)
    }
}

/// Rounds a `PCT_SCALE` value to two decimal places.
pub fn round_mfi(v: i64) -> (r: i64)
    ensures
        r == round_2dp(v as int),
{
    let neg = v < 0;
    let m128: i128 = if neg {
        -(v as i128)
    } else {
        v as i128
    };
    let q128 = (m128 + 50) / 100;
    proof {
        assert(q128 * 100 <= m128 + 50) by (nonlinear_arith)
            requires
                q128 == (m128 + 50) / 100,
                m128 >= 0,
        ;
        assert(q128 <= 92_233_720_368_547_758i128) by (nonlinear_arith)
            requires
                q128 == (m128 + 50) / 100,
                0 <= m128 + 50 <= 9_223_372_036_854_775_858i128,
        ;
        assert(q128 >= 0) by (nonlinear_arith)
            requires
                q128 == (m128 + 50) / 100,
                m128 >= 0,
        ;
    }
    let r128 = q128 * 100;
    if neg {
        (-r128) as i64
    } else {
        r128 as i64
    }
}

impl PairResponse {
    /// The listing view of a snapshot: the same data with indicator values
    /// rounded to two decimal places.
    pub fn from_snapshot(snapshot: &PairSnapshot) -> (r: PairResponse)
        ensures
            r.icon@ == snapshot.icon@,
            r.pair@ == snapshot.pair@,
            r.mfi_1h == round_2dp(snapshot.mfi_1h as int),
            r.mfi_4h == round_2dp(snapshot.mfi_4h as int),
            r.mfi_1d == round_2dp(snapshot.mfi_1d as int),
            r.mfi_1w == round_2dp(snapshot.mfi_1w as int),
            r.is_favorite == snapshot.is_favorite,
            r.comments@ == snapshot.comments@,
    {
        PairResponse {
            icon: snapshot.icon.clone(),
            pair: snapshot.pair.clone(),
            mfi_1h: round_mfi(snapshot.mfi_1h),
            mfi_4h: round_mfi(snapshot.mfi_4h),
            mfi_1d: round_mfi(snapshot.mfi_1d),
            mfi_1w: round_mfi(snapshot.mfi_1w),
            is_favorite: snapshot.is_favorite,
            comments: snapshot.comments.clone(),
        }
    }
}

pub open spec fn key_val(p: PairResponse, k: SortKey) -> int {
    match k {
        SortKey::Mfi1h => p.mfi_1h as int,
        SortKey::Mfi4h => p.mfi_4h as int,
        SortKey::Mfi1d => p.mfi_1d as int,
        SortKey::Mfi1w => p.mfi_1w as int,
    }
}

/// Multi-key comparison: negative when `l` sorts before `r`, zero when the
/// keys cannot tell them apart.  Each field compares ascending or, for a
/// descending field, reversed; later fields break ties.
pub open spec fn spec_cmp(l: PairResponse, r: PairResponse, fields: Seq<SortField>) -> int
    decreases fields.len(),
{
    if fields.len() == 0 {
        0
    } else {
        let f = fields[0];
        let lv = key_val(l, f.key);
        let rv = key_val(r, f.key);
        let ord: int = if lv < rv {
            -1
        } else if lv > rv {
            1
        } else {
            0
        };
        let ord2: int = if f.direction == SortDirection::Desc {
            -ord
        } else {
            ord
        };
        if ord2 != 0 {
            ord2
        } else {
            spec_cmp(l, r, fields.drop_first())
        }
    }
}

proof fn lemma_cmp_antisym(l: PairResponse, r: PairResponse, fields: Seq<SortField>)
    ensures
        spec_cmp(l, r, fields) == -spec_cmp(r, l, fields),
    decreases fields.len(),
{
    if fields.len() > 0 {
        lemma_cmp_antisym(l, r, fields.drop_first());
    }
}

proof fn lemma_cmp_trans(a: PairResponse, b: PairResponse, c: PairResponse, fields: Seq<SortField>)
    requires
        spec_cmp(a, b, fields) <= 0,
        spec_cmp(b, c, fields) <= 0,
    ensures
        spec_cmp(a, c, fields) <= 0,
    decreases fields.len(),
{
    if fields.len() > 0 {
        let f = fields[0];
        let av = key_val(a, f.key);
        let bv = key_val(b, f.key);
        let cv = key_val(c, f.key);
        if av == bv && bv == cv {
            lemma_cmp_trans(a, b, c, fields.drop_first());
        }
    }
}

/// Compares two pairs under the parsed sort fields: negative sorts first.
pub fn compare_pairs(left: &PairResponse, right: &PairResponse, sort_fields: &Vec<SortField>) -> (r:
    i8)
    ensures
        r == spec_cmp(*left, *right, sort_fields@),
{
    let n = sort_fields.len();
    let mut i: usize = 0;
    proof {
        assert(sort_fields@.skip(0) =~= sort_fields@);
    }
    while i < n
        invariant
            0 <= i <= n == sort_fields@.len(),
            spec_cmp(*left, *right, sort_fields@) == spec_cmp(
                *left,
                *right,
                sort_fields@.skip(i as int),
            ),
        decreases n - i,
    {
        let f = sort_fields[i];
        let lv = match f.key {
            SortKey::Mfi1h => left.mfi_1h,
            SortKey::Mfi4h => left.mfi_4h,
            SortKey::Mfi1d => left.mfi_1d,
            SortKey::Mfi1w => left.mfi_1w,
        };
        let rv = match f.key {
            SortKey::Mfi1h => right.mfi_1h,
            SortKey::Mfi4h => right.mfi_4h,
            SortKey::Mfi1d => right.mfi_1d,
            SortKey::Mfi1w => right.mfi_1w,
        };
        proof {
            assert(sort_fields@.skip(i as int)[0] == sort_fields@[i as int]);
            assert(sort_fields@.skip(i as int).drop_first() =~= sort_fields@.skip(i + 1));
        }
        let ord: i8 = if lv < rv {
            -1
        } else if lv > rv {
            1
        } else {
            0
        };
        let ord2: i8 = if matches!(f.direction, SortDirection::Desc) {
            -ord
        } else {
            ord
        };
        if ord2 != 0 {
            return ord2;
        }
        i = i + 1;
    }
    proof {
        assert(sort_fields@.skip(sort_fields@.len() as int) =~= Seq::<SortField>::empty());
    }
    0
}

pub open spec fn sorted_by_fields(s: Seq<PairResponse>, fields: Seq<SortField>) -> bool {
    forall|i: int, j: int|
        0 <= i <= j < s.len() ==> spec_cmp(#[trigger] s[i], #[trigger] s[j], fields) <= 0
}

/// Sorts pairs under the parsed sort fields, keeping the collection as a
/// multiset; pairs the fields cannot tell apart keep their relative order.
pub fn sort_pairs(pairs: &mut Vec<PairResponse>, sort_fields: &Vec<SortField>)
    ensures
        final(pairs)@.to_multiset() == old(pairs)@.to_multiset(),
        final(pairs)@.len() == old(pairs)@.len(),
        sorted_by_fields(final(pairs)@, sort_fields@),
{
    broadcast use group_to_multiset_ensures;

    let mut out: Vec<PairResponse> = Vec::new();
    while pairs.len() > 0
        invariant
            sorted_by_fields(out@, sort_fields@),
            pairs@.to_multiset().add(out@.to_multiset()) =~= old(pairs)@.to_multiset(),
            pairs@.len() + out@.len() == old(pairs)@.len(),
        decreases pairs@.len(),
    {
        let ghost pre = pairs@;
        let ghost pre_out = out@;
        let idx = pairs.len() - 1;
        let x = pairs.remove(idx);
        proof {
            broadcast use group_to_multiset_ensures;

            assert(pre =~= pairs@.push(x));
            assert(pairs@.push(x).to_multiset() =~= pairs@.to_multiset().insert(x));
            assert(pre.to_multiset() =~= pairs@.to_multiset().insert(x));
        }
        let mut p: usize = 0;
        while p < out.len() && compare_pairs(&out[p], &x, sort_fields) <= 0
            invariant
                0 <= p <= out@.len(),
                out@ == pre_out,
                forall|q: int|
                    0 <= q < p ==> spec_cmp(#[trigger] out@[q], x, sort_fields@) <= 0,
            decreases out@.len() - p,
        {
            p = p + 1;
        }
        proof {
            lemma_to_multiset_insert(out@, p as int, x);
        }
        out.insert(p, x);
        proof {
            assert forall|i: int, j: int| 0 <= i <= j < out@.len() implies spec_cmp(
                #[trigger] out@[i],
                #[trigger] out@[j],
                sort_fields@,
            ) <= 0 by {
                assert(forall|q: int|
                    0 <= q < out@.len() ==> out@[q] == (if q < p {
                        pre_out[q]
                    } else if q == p {
                        x
                    } else {
                        pre_out[q - 1]
                    }));
                lemma_cmp_antisym(x, x, sort_fields@);
                if p < pre_out.len() {
                    lemma_cmp_antisym(pre_out[p as int], x, sort_fields@);
                }
                if i < p && j < p {
                    assert(spec_cmp(pre_out[i], pre_out[j], sort_fields@) <= 0);
                } else if i < p && j == p {
                    assert(spec_cmp(pre_out[i], x, sort_fields@) <= 0);
                } else if i < p && j > p {
                    assert(spec_cmp(pre_out[i], pre_out[j - 1], sort_fields@) <= 0);
                } else if i == p && j > p {
                    lemma_cmp_antisym(x, pre_out[p as int], sort_fields@);
                    assert(spec_cmp(pre_out[p as int], pre_out[j - 1], sort_fields@) <= 0);
                    lemma_cmp_trans(x, pre_out[p as int], pre_out[j - 1], sort_fields@);
                } else if i > p {
                    assert(spec_cmp(pre_out[i - 1], pre_out[j - 1], sort_fields@) <= 0);
                }
            }
        }
    }
    proof {
        broadcast use group_to_multiset_ensures;

        assert forall|a: PairResponse| true implies pairs@.to_multiset().count(a) == 0 by {
            if pairs@.to_multiset().count(a) > 0 {
                assert(pairs@.contains(a));
            }
        }
        assert(pairs@.to_multiset().add(out@.to_multiset()) =~= out@.to_multiset());
    }
    *pairs = out;
}

} // verus!
