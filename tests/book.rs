use tickerplant::channel::{classify_event, extract_instrument, FeedMessage};
use tickerplant::feed::{Board, Execution};
use tickerplant::handler::FeedHandler;
use tickerplant::identity::Identity;
use tickerplant::ladder::{Ladder, PriceLevel, PRICE_SCALE, SIZE_SCALE};
use tickerplant::marketdata::{mid_price, MarketBook, MarketData, Quote};

fn px(p: i64) -> i64 {
    p * PRICE_SCALE
}

fn sz(s: u64) -> u64 {
    s * SIZE_SCALE
}

fn lvl(p: i64, s: u64) -> PriceLevel {
    PriceLevel { price: px(p), size: sz(s) }
}

fn ident() -> Identity {
    Identity::new("dc".to_string(), "proc".to_string())
}

fn board(asks: Vec<PriceLevel>, bids: Vec<PriceLevel>) -> Board {
    Board { mid_price: 0, asks, bids }
}

fn scenario_a() -> (FeedHandler, Vec<MarketData>) {
    let mut h = FeedHandler::new(ident());
    let ev = h.on_board_snapshot(
        "BTCJPY".to_string(),
        board(vec![lvl(100, 1), lvl(101, 2)], vec![lvl(99, 1)]),
    );
    (h, ev)
}

#[test]
fn snapshot_gives_top_of_book() {
    let (h, ev) = scenario_a();
    assert_eq!(ev.len(), 2);
    match &ev[0] {
        MarketData::Rate(r) => {
            assert_eq!(r.best_bid, Quote::Price(px(99)));
            assert_eq!(r.best_ask, Quote::Price(px(100)));
            assert_eq!(r.mid_price, Some(9_950_000_000));
            assert_eq!(r.sym, "BTCJPY");
        }
        _ => panic!("first event must be a Rate"),
    }
    match &ev[1] {
        MarketData::MarketBook(b) => {
            assert_eq!(b.asks.levels(), vec![lvl(100, 1), lvl(101, 2)]);
            assert_eq!(b.bids.levels(), vec![lvl(99, 1)]);
            assert_eq!(b.misc, "snapshot");
            assert_eq!(b.venue, "bitflyer");
        }
        _ => panic!("second event must be a MarketBook"),
    }
    assert!(h.has_book(&"BTCJPY".to_string()));
}

#[test]
fn delta_removes_level_and_moves_best_ask() {
    let (mut h, _) = scenario_a();
    let ev = h.on_board_delta("BTCJPY".to_string(), board(vec![lvl(100, 0)], vec![]));
    assert_eq!(ev.len(), 2);
    match &ev[0] {
        MarketData::Rate(r) => {
            assert_eq!(r.best_ask, Quote::Price(px(101)));
            assert_eq!(r.best_bid, Quote::Price(px(99)));
            assert_eq!(r.misc, "diff");
        }
        _ => panic!("a moved top of book must publish a Rate"),
    }
    match &ev[1] {
        MarketData::MarketBook(b) => {
            assert_eq!(b.asks.levels(), vec![lvl(101, 2)]);
            assert_eq!(b.asks.get(px(100)), None);
            assert_eq!(b.misc, "diff");
        }
        _ => panic!("a delta must publish its book"),
    }
    let book = h.latest_book(&"BTCJPY".to_string()).unwrap();
    assert_eq!(book.asks.levels(), vec![lvl(101, 2)]);
}

#[test]
fn delta_without_top_change_publishes_only_book() {
    let (mut h, _) = scenario_a();
    let ev = h.on_board_delta("BTCJPY".to_string(), board(vec![lvl(105, 3)], vec![lvl(90, 4)]));
    assert_eq!(ev.len(), 1);
    match &ev[0] {
        MarketData::MarketBook(b) => {
            assert_eq!(b.asks.len(), 3);
            assert_eq!(b.bids.get(px(90)), Some(sz(4)));
        }
        _ => panic!("only the book is published"),
    }
}

#[test]
fn delta_before_snapshot_is_dropped() {
    let mut h = FeedHandler::new(ident());
    let ev = h.on_board_delta("BTCJPY".to_string(), board(vec![lvl(100, 1)], vec![]));
    assert!(ev.is_empty());
    assert!(!h.has_book(&"BTCJPY".to_string()));
    assert!(h.latest_book(&"BTCJPY".to_string()).is_none());
}

#[test]
fn snapshot_drops_zero_sizes() {
    let l = Ladder::from_snapshot(&vec![lvl(100, 1), lvl(101, 0), lvl(102, 2)]);
    assert_eq!(l.levels(), vec![lvl(100, 1), lvl(102, 2)]);
    let l2 = Ladder::from_snapshot(&vec![lvl(100, 1), lvl(100, 0)]);
    assert_eq!(l2.levels(), vec![lvl(100, 1)]);
}

#[test]
fn ladder_never_stores_zero_size() {
    let mut l = Ladder::from_snapshot(&vec![lvl(100, 1), lvl(101, 2)]);
    l.apply_delta(&vec![lvl(101, 0), lvl(103, 0), lvl(99, 5)]);
    let levels = l.levels();
    assert_eq!(levels, vec![lvl(99, 5), lvl(100, 1)]);
    assert!(levels.iter().all(|x| x.size != 0));
}

#[test]
fn delta_applied_twice_equals_once() {
    let base = vec![lvl(100, 1), lvl(101, 2)];
    let mut once = Ladder::from_snapshot(&base);
    once.apply_delta(&vec![lvl(100, 7)]);
    let mut twice = Ladder::from_snapshot(&base);
    twice.apply_delta(&vec![lvl(100, 7)]);
    twice.apply_delta(&vec![lvl(100, 7)]);
    assert_eq!(once.levels(), twice.levels());
    assert_eq!(once.get(px(100)), Some(sz(7)));
}

#[test]
fn upsert_keeps_prices_sorted() {
    let mut l = Ladder::new();
    l.upsert(px(105), sz(1));
    l.upsert(px(101), sz(2));
    l.upsert(px(103), sz(3));
    l.upsert(px(101), sz(4));
    assert_eq!(l.levels(), vec![lvl(101, 4), lvl(103, 3), lvl(105, 1)]);
    assert_eq!(l.min_price(), Some(px(101)));
    assert_eq!(l.max_price(), Some(px(105)));
}

#[test]
fn empty_sides_quote_sentinels() {
    let book = MarketBook {
        timestamp: 0,
        market_created_timestamp: 0,
        sym: "BTCJPY".to_string(),
        venue: "bitflyer".to_string(),
        category: "lightning".to_string(),
        asks: Ladder::new(),
        bids: Ladder::new(),
        misc: String::new(),
        universal_id: String::new(),
        data_center: String::new(),
        process_id: String::new(),
    };
    let r = book.to_rate(&ident());
    assert_eq!(r.best_bid, Quote::NegInfinity);
    assert_eq!(r.best_ask, Quote::PosInfinity);
    assert_eq!(r.mid_price, None);
    assert_eq!(r.universal_id.len(), 36);
    assert_eq!(r.data_center, "dc");
}

#[test]
fn one_sided_book_has_no_mid() {
    let mut h = FeedHandler::new(ident());
    let ev = h.on_board_snapshot("ETHJPY".to_string(), board(vec![], vec![lvl(99, 1)]));
    match &ev[0] {
        MarketData::Rate(r) => {
            assert_eq!(r.best_bid, Quote::Price(px(99)));
            assert_eq!(r.best_ask, Quote::PosInfinity);
            assert_eq!(r.mid_price, None);
        }
        _ => panic!("first event must be a Rate"),
    }
}

#[test]
fn mid_price_rounds_down() {
    assert_eq!(mid_price(Quote::Price(3), Quote::Price(4)), Some(3));
    assert_eq!(mid_price(Quote::Price(-3), Quote::Price(-4)), Some(-4));
    assert_eq!(mid_price(Quote::NegInfinity, Quote::Price(4)), None);
}

#[test]
fn board_rate_drops_zero_sizes_and_averages() {
    let b = Board { mid_price: 42, asks: vec![lvl(103, 1), lvl(101, 0)], bids: vec![lvl(97, 1), lvl(98, 1)] };
    let r = b.to_rate("BTCJPY".to_string(), &ident());
    assert_eq!(r.best_ask, Quote::Price(px(103)));
    assert_eq!(r.best_bid, Quote::Price(px(98)));
    assert_eq!(r.mid_price, Some(10_050_000_000));
}

#[test]
fn board_merge_appends_asks() {
    let mut a = board(vec![lvl(100, 1)], vec![lvl(99, 1)]);
    a.merge(board(vec![lvl(101, 1)], vec![lvl(98, 1)]));
    assert_eq!(a.asks, vec![lvl(100, 1), lvl(101, 1)]);
    assert_eq!(a.bids, vec![lvl(99, 1)]);
}

#[test]
fn channel_names_give_instruments() {
    match classify_event("lightning_board_snapshot_BTC_JPY") {
        FeedMessage::BoardSnapshot(s) => assert_eq!(s, "BTCJPY"),
        other => panic!("unexpected {:?}", other),
    }
    match classify_event("lightning_executions_BTC_JPY") {
        FeedMessage::Executions(s) => assert_eq!(s, "BTCJPY"),
        other => panic!("unexpected {:?}", other),
    }
    match classify_event("lightning_board_FX_BTC_JPY") {
        FeedMessage::BoardDelta(s) => assert_eq!(s, "FXBTCJPY"),
        other => panic!("unexpected {:?}", other),
    }
    assert!(matches!(classify_event("lightning_ticker_BTC_JPY"), FeedMessage::Ticker));
    assert!(matches!(classify_event("kicked"), FeedMessage::Kicked));
    assert!(matches!(classify_event("hello"), FeedMessage::Unknown));
}

#[test]
fn instrument_without_token_keeps_whole_name() {
    assert_eq!(extract_instrument("BTC_JPY", "executions_"), "BTCJPY");
    assert_eq!(extract_instrument("a_board_x_board_Y_Z", "board_"), "YZ");
    assert_eq!(extract_instrument("", "board_"), "");
}

#[test]
fn executions_become_trades_in_order() {
    let h = FeedHandler::new(ident());
    let execs = vec![
        Execution {
            id: 12345,
            side: "BUY".to_string(),
            price: px(100),
            size: sz(2),
            exec_date: 7,
            buy_child_order_acceptance_id: "JRF1".to_string(),
            sell_child_order_acceptance_id: "JRF2".to_string(),
        },
        Execution {
            id: 7,
            side: "SELL".to_string(),
            price: px(99),
            size: sz(1),
            exec_date: 8,
            buy_child_order_acceptance_id: "a".to_string(),
            sell_child_order_acceptance_id: "b".to_string(),
        },
    ];
    let ev = h.on_executions("BTCJPY".to_string(), &execs);
    assert_eq!(ev.len(), 2);
    match &ev[0] {
        MarketData::MarketTrade(t) => {
            assert_eq!(t.side, 1);
            assert_eq!(t.price, px(100));
            assert_eq!(t.amount, sz(2));
            assert_eq!(t.trade_id, "12345");
            assert_eq!(t.order_ids, "JRF1;JRF2");
            assert_eq!(t.market_created_timestamp, 7);
            assert_eq!(t.sym, "BTCJPY");
        }
        _ => panic!("trades expected"),
    }
    match &ev[1] {
        MarketData::MarketTrade(t) => {
            assert_eq!(t.side, -1);
            assert_eq!(t.trade_id, "7");
        }
        _ => panic!("trades expected"),
    }
}

#[test]
fn identity_hashes_hardware_address() {
    let id = Identity::from_mac(&[]);
    assert_eq!(id.data_center, "d41d8cd98f00b204e9800998ecf8427e");
    assert_eq!(id.process_id.len(), 36);
    let other = Identity::from_mac(&[0, 1, 2, 3, 4, 5]);
    assert_eq!(other.data_center.len(), 32);
    assert_ne!(other.data_center, id.data_center);
}
