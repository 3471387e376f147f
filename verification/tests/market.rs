use ema_crossover::decimal::{i32_to_decimal, u64_to_decimal};
use ema_crossover::market::{kline_url, kline_window, CANDLE_COUNT, RESOLUTION_SECS};

#[test]
fn unsigned_decimal_text() {
    assert_eq!(u64_to_decimal(0), "0");
    assert_eq!(u64_to_decimal(7), "7");
    assert_eq!(u64_to_decimal(10), "10");
    assert_eq!(u64_to_decimal(1234567890), "1234567890");
    assert_eq!(u64_to_decimal(u64::MAX), u64::MAX.to_string());
}

#[test]
fn signed_decimal_text() {
    assert_eq!(i32_to_decimal(0), "0");
    assert_eq!(i32_to_decimal(-42), "-42");
    assert_eq!(i32_to_decimal(300), "300");
    assert_eq!(i32_to_decimal(i32::MIN), "-2147483648");
    assert_eq!(i32_to_decimal(i32::MAX), "2147483647");
}

#[test]
fn decimal_text_reads_back() {
    for n in [0u64, 1, 9, 10, 99, 100, 65535, 4294967296, u64::MAX] {
        assert_eq!(u64_to_decimal(n).parse::<u64>().unwrap(), n);
    }
    for n in [i32::MIN, -1000, -1, 0, 1, 299700, i32::MAX] {
        assert_eq!(i32_to_decimal(n).parse::<i32>().unwrap(), n);
    }
}

#[test]
fn window_spans_candles() {
    assert_eq!(RESOLUTION_SECS * CANDLE_COUNT, 299700);
    assert_eq!(kline_window(1700000000), (1700000000, 1699700300));
}

#[test]
fn window_truncates_clock() {
    // 2^32 + 5 seconds cut to an i32 is 5.
    assert_eq!(kline_window(4294967301), (5, 5 - 299700));
}

#[test]
fn kline_url_text() {
    assert_eq!(
        kline_url("BTC", 1700000000, 1699700300, 300),
        "https://api.phemex.com/exchange/public/md/kline?symbol=BTCUSD&to=1700000000&from=1699700300&resolution=300"
    );
}

#[test]
fn kline_url_negative_bounds() {
    assert_eq!(
        kline_url("ETH", 5, -299695, 300),
        "https://api.phemex.com/exchange/public/md/kline?symbol=ETHUSD&to=5&from=-299695&resolution=300"
    );
}
