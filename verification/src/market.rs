//! Market identifiers: trading-pair symbols and the links built from them.

use vstd::prelude::*;
use vstd::string::StringExecFns;
use vstd::string::StrSliceExecFns;
use crate::engine::has_usdt_suffix;
use crate::types::Alert;

verus! {

/// A trading pair on a named exchange.
#[derive(Debug, Clone, PartialEq, Eq, Hash)]
pub struct Symbol {
    pub base: String,
    pub quote: String,
    pub exchange: String,
}

pub open spec fn is_ascii_alnum(c: char) -> bool {
    (48 <= c as u32 && c as u32 <= 57) || (65 <= c as u32 && c as u32 <= 90) || (97 <= c as u32
        && c as u32 <= 122)
}

pub open spec fn all_ascii_alnum(s: Seq<char>) -> bool {
    forall|i: int| 0 <= i < s.len() ==> is_ascii_alnum(#[trigger] s[i])
}

impl Symbol {
    pub fn new(base: String, quote: String, exchange: String) -> (s: Symbol)
        ensures
            s.base@ == base@,
            s.quote@ == quote@,
            s.exchange@ == exchange@,
    {
        Symbol { base, quote, exchange }
    }

    /// The exchange-native pair name: base and quote joined.
    pub fn exchange_symbol(&self) -> (r: String)
        ensures
            r@ == self.base@ + self.quote@,
    {
        self.base.clone().concat(self.quote.as_str())
    }

    /// Base and quote both non-empty and purely ASCII alphanumeric.
    pub fn is_valid(&self) -> (r: bool)
        ensures
            r == (all_ascii_alnum(self.base@) && all_ascii_alnum(self.quote@) && self.base@.len()
                > 0 && self.quote@.len() > 0),
    {
        str_all_alnum(self.base.as_str()) && str_all_alnum(self.quote.as_str())
            && !self.base.as_str().is_empty() && !self.quote.as_str().is_empty()
    }
}

/// Whether every character is ASCII alphanumeric.
fn str_all_alnum(s: &str) -> (r: bool)
    ensures
        r == all_ascii_alnum(s@),
{
    let n = s.unicode_len();
    let mut i: usize = 0;
    while i < n
        invariant
            0 <= i <= n == s@.len(),
            forall|j: int| 0 <= j < i ==> is_ascii_alnum(#[trigger] s@[j]),
        decreases n - i,
    {
        let c = s.get_char(i) as u32;
        if !((48 <= c && c <= 57) || (65 <= c && c <= 90) || (97 <= c && c <= 122)) {
            return false;
        }
        i = i + 1;
    }
    true
}

/// The coin name of a pair: the `USDT` suffix stripped, or the pair itself.
pub fn extract_coin_from_pair(pair: &str) -> (r: &str)
    ensures
        r@ == (if has_usdt_suffix(pair@) {
            pair@.take(pair@.len() - 4)
        } else {
            pair@
        }),
{
    let n = pair.unicode_len();
    if n < 4 {
        return pair;
    }
    let c0 = pair.get_char(n - 4);
    let c1 = pair.get_char(n - 3);
    let c2 = pair.get_char(n - 2);
    let c3 = pair.get_char(n - 1);
    if c0 == 'U' && c1 == 'S' && c2 == 'D' && c3 == 'T' {
        let r = pair.substring_char(0, n - 4);
        proof {
            assert(r@ =~= pair@.take(pair@.len() - 4));
        }
        r
    } else {
        pair
    }
}

/// The icon URL for a pair: its coin name under the static icon host.
pub fn icon_url(pair: &str) -> (r: String)
    ensures
        r@ == "https://static-app.bb-os.com/icon/"@ + (if has_usdt_suffix(pair@) {
            pair@.take(pair@.len() - 4)
        } else {
            pair@
        }) + ".png"@,
{
    let base = extract_coin_from_pair(pair);
    "https://static-app.bb-os.com/icon/".to_owned().concat(base).concat(".png")
}

impl Alert {
    /// The chart link for the alert's exchange and symbol.
    pub fn get_coinglass_url(&self) -> (r: String)
        ensures
            r@ == "https://www.coinglass.com/tv/"@ + self.exchange@ + "_"@ + self.symbol@,
    {
        "https://www.coinglass.com/tv/".to_owned().concat(self.exchange.as_str()).concat(
            "_",
        ).concat(self.symbol.as_str())
    }
}

} // verus!
