use vstd::prelude::*;
use vstd::string::*;

use crate::decimal::{
    append_signed_decimal, lemma_signed_decimal_round_trip, signed_decimal, signed_digits_value,
};

verus! {

/// Length of one candle, in seconds (five minutes).
pub const RESOLUTION_SECS: i32 = 300;

/// Number of candles that one history request covers; the exchange answers at
/// most a thousand.
pub const CANDLE_COUNT: i32 = 999;

/// Seconds that one history request spans.
pub open spec fn history_span() -> int {
    RESOLUTION_SECS * CANDLE_COUNT
}

/// The `(to, from)` pair of a history request made at `now_secs`: `to` is the
/// clock reading cut to an `i32` (as `as i32` cuts it), `from` lies one span
/// earlier. Subtracting past `i32::MIN` would overflow, so such readings are
/// excluded.
pub fn kline_window(now_secs: u64) -> (res: (i32, i32))
    requires
        (now_secs as i32) - history_span() >= i32::MIN,
    ensures
        res.0 == now_secs as i32,
        res.1 == res.0 - history_span(),
        res.1 == res.0 - RESOLUTION_SECS * CANDLE_COUNT,
        res.0 - res.1 == 300 * 999,
{
    let to = now_secs as i32;
    let span = RESOLUTION_SECS * CANDLE_COUNT;
    (to, to - span)
}

/// The text of the history request for `coin` against USD.
pub open spec fn kline_url_text(coin: Seq<char>, to: int, from: int, resolution: int) -> Seq<char> {
    "https://api.phemex.com/exchange/public/md/kline?symbol="@ + coin + "USD&to="@ + signed_decimal(to)
        + "&from="@ + signed_decimal(from) + "&resolution="@ + signed_decimal(resolution)
}

/// Builds the URL of the exchange's candle history for `coin` against USD,
/// between `from` and `to` (seconds), at `resolution` seconds per candle.
pub fn kline_url(coin: &str, to: i32, from: i32, resolution: i32) -> (res: String)
    ensures
        res@ == kline_url_text(coin@, to as int, from as int, resolution as int),
        res@ == "https://api.phemex.com/exchange/public/md/kline?symbol="@ + coin@ + "USD&to="@
            + signed_decimal(to as int) + "&from="@ + signed_decimal(from as int) + "&resolution="@
            + signed_decimal(resolution as int),
{
    let mut url = String::from_str("https://api.phemex.com/exchange/public/md/kline?symbol=");
    url.append(coin);
    url.append("USD&to=");
    append_signed_decimal(&mut url, to);
    url.append("&from=");
    append_signed_decimal(&mut url, from);
    url.append("&resolution=");
    append_signed_decimal(&mut url, resolution);
    assert(url@ =~= kline_url_text(coin@, to as int, from as int, resolution as int));
    url
}

/// The history URL names the coin against USD, and its `to`, `from` and
/// `resolution` fields read back, as signed decimals, to exactly the numbers
/// it was built from.
pub proof fn lemma_kline_url_fields(coin: Seq<char>, to: int, from: int, resolution: int)
    ensures
        ({
            let url = kline_url_text(coin, to, from, resolution);
            let head = "https://api.phemex.com/exchange/public/md/kline?symbol="@ + coin
                + "USD&to="@;
            let to_end: int = (head.len() + signed_decimal(to).len()) as int;
            let from_start: int = to_end + 6;
            let from_end: int = from_start + signed_decimal(from).len();
            let resolution_start: int = from_end + 12;
            &&& url.subrange(0, head.len() as int) == head
            &&& signed_digits_value(url.subrange(head.len() as int, to_end)) == to
            &&& url.subrange(to_end, from_start) == "&from="@
            &&& signed_digits_value(url.subrange(from_start, from_end)) == from
            &&& url.subrange(from_end, resolution_start) == "&resolution="@
            &&& signed_digits_value(url.subrange(resolution_start, url.len() as int)) == resolution
        }),
{
    reveal_strlit("&from=");
    reveal_strlit("&resolution=");
    lemma_signed_decimal_round_trip(to);
    lemma_signed_decimal_round_trip(from);
    lemma_signed_decimal_round_trip(resolution);
    let url = kline_url_text(coin, to, from, resolution);
    let head = "https://api.phemex.com/exchange/public/md/kline?symbol="@ + coin + "USD&to="@;
    let t = signed_decimal(to);
    let f = signed_decimal(from);
    let r = signed_decimal(resolution);
    let to_end: int = (head.len() + t.len()) as int;
    let from_start: int = to_end + 6;
    let from_end: int = from_start + f.len();
    let resolution_start: int = from_end + 12;
    assert(url =~= head + t + "&from="@ + f + "&resolution="@ + r);
    assert(url.subrange(0, head.len() as int) =~= head);
    assert(url.subrange(head.len() as int, to_end) =~= t);
    assert(url.subrange(to_end, from_start) =~= "&from="@);
    assert(url.subrange(from_start, from_end) =~= f);
    assert(url.subrange(from_end, resolution_start) =~= "&resolution="@);
    assert(url.subrange(resolution_start, url.len() as int) =~= r);
}

} // verus!
