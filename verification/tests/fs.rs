use iex_book::fs::{
    trade_date_from_path, try_trade_date_from_path, yyyymmdd_prefix_from_stem, TradeDate,
    TradeDateFromFileErr,
};

#[test]
fn trade_date_from_file_name() {
    assert_eq!(
        trade_date_from_path("./data/data_feeds_20210712_20210712_IEXTP1_DEEP1.0.txt").unwrap().to_string(),
        "2021-07-12"
    )
}

#[test]
fn trade_date_of_iex_file_name() {
    assert_eq!(
        trade_date_from_path("/tmp/data_feeds_20210712_20210712_IEXTP1_DEEP1.0.pcap"),
        Ok(TradeDate { year: 2021, month: 7, day: 12 })
    );
}

#[test]
fn trade_date_invalid_date() {
    assert_eq!(
        trade_date_from_path("./data/data_feeds_20211345_20210712_IEXTP1_DEEP1.0.txt"),
        Err(TradeDateFromFileErr::InvalidDate)
    );
    assert_eq!(yyyymmdd_prefix_from_stem("2021xx12"), Err(TradeDateFromFileErr::InvalidDate));
}

#[test]
fn trade_date_without_stem() {
    assert_eq!(trade_date_from_path(""), Err(TradeDateFromFileErr::NoStem));
    assert_eq!(trade_date_from_path("/"), Err(TradeDateFromFileErr::NoStem));
    assert_eq!(try_trade_date_from_path(".."), Some(Err(TradeDateFromFileErr::NoStem)));
}

#[test]
fn trade_date_of_short_stem_is_refused() {
    assert_eq!(try_trade_date_from_path("./data/short.pcap"), None);
    assert_eq!(try_trade_date_from_path("./data/data_feedsé20210712_x.pcap"), None);
    assert_eq!(
        try_trade_date_from_path("./data/data_feeds_20210712_20210712_IEXTP1_DEEP1.0.pcap"),
        Some(Ok(TradeDate { year: 2021, month: 7, day: 12 }))
    );
}

#[test]
fn yyyymmdd_reads_date() {
    assert_eq!(yyyymmdd_prefix_from_stem("20200229"), Ok(TradeDate { year: 2020, month: 2, day: 29 }));
    assert_eq!(yyyymmdd_prefix_from_stem("20210229"), Err(TradeDateFromFileErr::InvalidDate));
}

#[test]
fn date_text_pads_fields() {
    assert_eq!(TradeDate { year: 2021, month: 7, day: 2 }.to_string(), "2021-07-02");
    assert_eq!(TradeDate { year: 7, month: 12, day: 31 }.to_string(), "0007-12-31");
    assert_eq!(TradeDate { year: -1, month: 1, day: 1 }.to_string(), "-0001-01-01");
    assert_eq!(TradeDate { year: 12345, month: 6, day: 7 }.to_string(), "+12345-06-07");
}
