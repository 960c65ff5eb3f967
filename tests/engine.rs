use tickerplant::backtest::{BacktestClient, ExecutionClient, OrderError};
use tickerplant::bus::{EventSink, FanOut, Recorder};
use tickerplant::identity::Identity;
use tickerplant::throttle::BookThrottle;
use tickerplant::marketdata::{MarketData, MarketTrade, Quote, Rate};
use tickerplant::order::{OrderStatus, OrderType, Position};
use tickerplant::session::{
    maintenance_wait_secs, reconnect_delay_millis, session_step, session_step_at, SessionAction,
    SessionEvent, SessionState,
};

fn ident() -> Identity {
    Identity::new("dc".to_string(), "proc".to_string())
}

fn rate(ts: i128, bid: Quote, ask: Quote) -> MarketData {
    MarketData::Rate(Rate {
        timestamp: ts,
        market_created_timestamp: ts,
        sym: "BTCJPY".to_string(),
        venue: "bitflyer".to_string(),
        category: "lightning".to_string(),
        best_bid: bid,
        best_ask: ask,
        mid_price: None,
        misc: String::new(),
        universal_id: String::new(),
        data_center: String::new(),
        process_id: String::new(),
    })
}

fn trade(ts: i128, side: i16, price: i64) -> MarketData {
    MarketData::MarketTrade(MarketTrade {
        timestamp: ts + 5,
        market_created_timestamp: ts,
        sym: "BTCJPY".to_string(),
        venue: "bitflyer".to_string(),
        category: "lightning".to_string(),
        side,
        price,
        amount: 1,
        trade_id: "1".to_string(),
        order_ids: "a;b".to_string(),
        misc: String::new(),
        universal_id: String::new(),
        process_id: String::new(),
        data_center: String::new(),
    })
}

fn engine() -> BacktestClient {
    BacktestClient::new("bitflyer", ident())
}

#[test]
fn market_buy_fills_at_best_ask() {
    let mut c = engine();
    let o = c.submit_order(10, "BTCJPY", 1, 0, 3, OrderType::Market(String::new()), "m1");
    assert_eq!(o.order_status, OrderStatus::New);
    let fills = c.next(&rate(20, Quote::Price(49_990), Quote::Price(50_000)));
    assert_eq!(fills.len(), 1);
    assert_eq!(fills[0].order_id, o.order_id);
    assert_eq!(fills[0].price, 50_000);
    assert_eq!(fills[0].executed_amount, 3);
    assert_eq!(fills[0].executed_amount, fills[0].amount);
    assert_eq!(fills[0].received_timestamp, 20);
    assert_eq!(fills[0].order_status, OrderStatus::Filled);
    assert!(c.get_order_status(o.order_id).is_none());
    assert_eq!(fills[0].executed_price, Some(Quote::Price(50_000)));
    assert_eq!(c.quotes(), (Quote::Price(49_990), Quote::Price(50_000)));
    assert!(c.next(&rate(30, Quote::Price(1), Quote::Price(2))).is_empty());
}

#[test]
fn market_sell_fills_at_best_bid() {
    let mut c = engine();
    let o = c.submit_order(10, "BTCJPY", -1, 0, 2, OrderType::Market(String::new()), "m1");
    let fills = c.next(&rate(20, Quote::Price(49_990), Quote::Price(50_000)));
    assert_eq!(fills.len(), 1);
    assert_eq!(fills[0].order_id, o.order_id);
    assert_eq!(fills[0].price, 49_990);
    assert_eq!(fills[0].executed_amount, 2);
}

#[test]
fn market_order_fills_against_unquoted_side() {
    let mut c = engine();
    c.submit_order(10, "BTCJPY", 1, 7, 2, OrderType::Market(String::new()), "m1");
    let fills = c.next(&rate(20, Quote::Price(1), Quote::PosInfinity));
    assert_eq!(fills.len(), 1);
    assert_eq!(fills[0].executed_price, Some(Quote::PosInfinity));
    assert_eq!(fills[0].price, 7);
    assert_eq!(fills[0].executed_amount, 2);
    assert!(c.next(&rate(21, Quote::Price(1), Quote::Price(3))).is_empty());
}

#[test]
fn new_engine_starts_with_zero_bid() {
    let c = engine();
    assert_eq!(c.quotes(), (Quote::Price(0), Quote::PosInfinity));
}

#[test]
fn market_order_ignores_other_instrument() {
    let mut c = engine();
    c.submit_order(10, "ETHJPY", 1, 0, 2, OrderType::Market(String::new()), "m1");
    assert!(c.next(&rate(20, Quote::Price(1), Quote::Price(2))).is_empty());
}

#[test]
fn limit_buy_fills_on_crossing_sell_only() {
    let mut c = engine();
    let o = c.submit_order(100, "BTCJPY", 1, 100, 1, OrderType::Limit(String::new()), "m1");
    let fills = c.next(&trade(200, -1, 99));
    assert_eq!(fills.len(), 1);
    assert_eq!(fills[0].order_id, o.order_id);
    assert_eq!(fills[0].price, 100);
    assert_eq!(fills[0].executed_amount, 1);
    assert_eq!(fills[0].order_status, OrderStatus::Filled);
    assert!(c.get_order_status(o.order_id).is_none());
    let o2 = c.submit_order(250, "BTCJPY", 1, 100, 1, OrderType::Limit(String::new()), "m1");
    assert!(c.next(&trade(300, 1, 101)).is_empty());
    assert_eq!(c.get_order_status(o2.order_id).unwrap().order_status, OrderStatus::New);
}

#[test]
fn limit_order_ignores_earlier_trades() {
    let mut c = engine();
    c.submit_order(100, "BTCJPY", 1, 100, 1, OrderType::Limit(String::new()), "m1");
    assert!(c.next(&trade(50, -1, 99)).is_empty());
    assert!(c.next(&trade(100, -1, 99)).is_empty());
}

#[test]
fn limit_sell_fills_on_buy_at_or_above() {
    let mut c = engine();
    c.submit_order(100, "BTCJPY", -1, 100, 1, OrderType::Limit(String::new()), "m1");
    c.submit_order(100, "BTCJPY", -1, 105, 1, OrderType::Limit(String::new()), "m1");
    let fills = c.next(&trade(200, 1, 100));
    assert_eq!(fills.len(), 1);
    assert_eq!(fills[0].price, 100);
    let fills = c.next(&trade(201, 1, 110));
    assert_eq!(fills.len(), 1);
    assert_eq!(fills[0].price, 105);
}

#[test]
fn cancel_unknown_id_is_not_found() {
    let mut c = engine();
    let o = c.submit_order(100, "BTCJPY", 1, 100, 1, OrderType::Limit(String::new()), "m1");
    let r = c.cancel_order(200, 999);
    assert_eq!(r.err(), Some(OrderError::NotFound(999)));
    let still = c.get_order_status(o.order_id).unwrap();
    assert_eq!(still.order_status, OrderStatus::New);
    assert_eq!(still.price, 100);
}

#[test]
fn cancel_stamps_latencies() {
    let mut c = engine().with_latencies(10, 20, 30, 40);
    let o = c.submit_order(100, "BTCJPY", 1, 100, 1, OrderType::Limit(String::new()), "m1");
    let r = c.cancel_order(1_000, o.order_id).unwrap();
    assert_eq!(r.order_status, OrderStatus::Canceled);
    assert_eq!(r.timestamp, 1_000);
    assert_eq!(r.market_created_timestamp, 1_010);
    assert_eq!(r.received_timestamp, 1_030);
    assert!(c.get_order_status(o.order_id).is_none());
    assert_eq!(c.cancel_order(1_001, o.order_id).err(), Some(OrderError::NotFound(o.order_id)));
}

#[test]
fn cancel_saturates_timestamps() {
    let mut c = engine();
    let o = c.submit_order(0, "BTCJPY", 1, 100, 1, OrderType::Limit(String::new()), "m1");
    let r = c.cancel_order(i128::MAX - 1, o.order_id).unwrap();
    assert_eq!(r.market_created_timestamp, i128::MAX);
    assert_eq!(r.received_timestamp, i128::MAX);
}

#[test]
fn default_latencies_apply_on_cancel() {
    let mut c = engine();
    let o = c.submit_order(0, "BTCJPY", 1, 100, 1, OrderType::Limit(String::new()), "m1");
    let r = c.cancel_order(0, o.order_id).unwrap();
    assert_eq!(r.market_created_timestamp, 100_000_000);
    assert_eq!(r.received_timestamp, 1_100_000_000);
}

#[test]
fn order_ids_are_sequential() {
    let mut c = engine();
    let a = c.submit_order(0, "BTCJPY", 1, 100, 1, OrderType::Limit(String::new()), "m1");
    let b = c.submit_order(0, "BTCJPY", 1, 100, 1, OrderType::Market(String::new()), "m1");
    assert_eq!(a.order_id, 0);
    assert_eq!(b.order_id, 1);
    assert_eq!(a.venue, "bitflyer");
    assert_eq!(a.model_id, "m1");
}

#[test]
fn client_trait_delegates() {
    let mut c = engine();
    let o = ExecutionClient::submit_order(&mut c, 0, "BTCJPY", 1, 5, 1, OrderType::Limit(String::new()), "m");
    assert!(ExecutionClient::get_order_status(&c, o.order_id).is_some());
    assert!(ExecutionClient::cancel_order(&mut c, 1, o.order_id).is_ok());
    let p = ExecutionClient::get_positions(&c);
    assert_eq!(p.amount, 0);
    assert_eq!(p.venue, "bitflyer");
}

#[test]
fn position_side_follows_sign() {
    let mut p = Position::new("BTCJPY", "bitflyer", "m", &ident());
    assert_eq!(p.side(), 0);
    p.amount = 5;
    assert_eq!(p.side(), 1);
    p.amount = -5;
    assert_eq!(p.side(), -1);
}

#[test]
fn fan_out_delivers_in_order_to_every_sink() {
    let mut bus: FanOut<Recorder> = FanOut::new();
    bus.add_sink(Recorder::new());
    bus.add_sink(Recorder::new());
    let events = vec![rate(1, Quote::Price(1), Quote::Price(2)), trade(2, 1, 3)];
    bus.publish_all(&events);
    bus.publish(&rate(3, Quote::Price(4), Quote::Price(5)));
    assert_eq!(bus.len(), 2);
    for i in 0..2 {
        let s = bus.sink(i);
        assert_eq!(s.len(), 3);
        assert!(matches!(s.get(0), MarketData::Rate(r) if r.timestamp == 1));
        assert!(matches!(s.get(1), MarketData::MarketTrade(t) if t.market_created_timestamp == 2));
        assert!(matches!(s.get(2), MarketData::Rate(r) if r.timestamp == 3));
    }
}

#[test]
fn recorder_accepts_directly() {
    let mut r = Recorder::new();
    r.accept(&rate(9, Quote::NegInfinity, Quote::PosInfinity));
    assert_eq!(r.len(), 1);
}

#[test]
fn session_connects_and_subscribes() {
    let (s, a) = session_step(SessionState::Disconnected, SessionEvent::Connect);
    assert_eq!(s, SessionState::Connecting { retries: 0 });
    assert_eq!(a, SessionAction::OpenTransport);
    let (s, a) = session_step(s, SessionEvent::Opened);
    assert_eq!(s, SessionState::Connected);
    assert_eq!(a, SessionAction::SubscribeAfter { millis: 3000 });
}

#[test]
fn session_error_waits_out_maintenance() {
    let at = (19 * 3600 + 5 * 60) as i128 * 1_000_000_000;
    let (s, a) = session_step(SessionState::Connected, SessionEvent::TransportError { now_nanos: at });
    assert_eq!(s, SessionState::Error { retries: 0 });
    assert_eq!(a, SessionAction::Wait { millis: 601_000 });
    let noon = 12 * 3600 * 1_000_000_000i128;
    let (_, a) = session_step(SessionState::Connected, SessionEvent::TransportError { now_nanos: noon });
    assert_eq!(a, SessionAction::Wait { millis: 1000 });
    let (s, a) = session_step(SessionState::Error { retries: 0 }, SessionEvent::WaitElapsed);
    assert_eq!(s, SessionState::Reconnecting { retries: 0 });
    assert_eq!(a, SessionAction::Wait { millis: 5000 });
    let (s, a) = session_step(s, SessionEvent::WaitElapsed);
    assert_eq!(s, SessionState::Connecting { retries: 0 });
    assert_eq!(a, SessionAction::OpenTransport);
    let (s, _) = session_step(s, SessionEvent::TransportError { now_nanos: noon });
    assert_eq!(s, SessionState::Error { retries: 1 });
}

#[test]
fn session_kicked_cools_down() {
    let (s, a) = session_step(SessionState::Connected, SessionEvent::Kicked);
    assert_eq!(s, SessionState::Kicked);
    assert_eq!(a, SessionAction::Wait { millis: 300_000 });
    let (s, _) = session_step(s, SessionEvent::WaitElapsed);
    assert_eq!(s, SessionState::Reconnecting { retries: 0 });
}

#[test]
fn disconnect_is_idempotent() {
    let (s, a) = session_step(SessionState::Connected, SessionEvent::Disconnect);
    assert_eq!(s, SessionState::Disconnected);
    assert_eq!(a, SessionAction::Release);
    let (s, a) = session_step(s, SessionEvent::Disconnect);
    assert_eq!(s, SessionState::Disconnected);
    assert_eq!(a, SessionAction::Nothing);
}

#[test]
fn maintenance_window_and_reconnect_bounds() {
    assert_eq!(maintenance_wait_secs(19, 0, 0), 900);
    assert_eq!(maintenance_wait_secs(19, 9, 59), 301);
    assert_eq!(maintenance_wait_secs(19, 10, 0), 0);
    assert_eq!(maintenance_wait_secs(18, 5, 0), 0);
    assert_eq!(reconnect_delay_millis(0), 5000);
    assert_eq!(reconnect_delay_millis(2), 15000);
    assert_eq!(reconnect_delay_millis(100), 30000);
    assert_eq!(
        session_step_at(SessionState::Connected, SessionEvent::TransportError { now_nanos: 0 }, Some((19, 0, 30))),
        (SessionState::Error { retries: 0 }, SessionAction::Wait { millis: 871_000 })
    );
}

#[test]
fn book_throttle_spaces_writes_per_instrument() {
    let mut t = BookThrottle::new();
    let a = "BTCJPY".to_string();
    let b = "ETHJPY".to_string();
    assert!(t.should_write(&a, 1_000_000_000));
    assert!(!t.should_write(&a, 1_050_000_000));
    assert!(!t.should_write(&a, 1_100_000_000));
    assert!(t.should_write(&b, 1_050_000_000));
    assert!(t.should_write(&a, 1_100_000_001));
    assert!(!t.should_write(&"XRPJPY".to_string(), 100_000_000));
}

#[test]
fn decimal_text_of_integers() {
    assert_eq!(tickerplant::identity::u32_decimal(0), "0");
    assert_eq!(tickerplant::identity::u32_decimal(10), "10");
    assert_eq!(tickerplant::identity::u32_decimal(4_294_967_295), "4294967295");
}

#[test]
fn recorder_counts_each_publish() {
    let mut bus: FanOut<Recorder> = FanOut::new();
    bus.add_sink(Recorder::new());
    bus.publish(&rate(1, Quote::Price(1), Quote::Price(2)));
    bus.publish(&rate(2, Quote::Price(1), Quote::Price(2)));
    assert_eq!(bus.sink(0).len(), 2);
}

struct Holder {
    client: BacktestClient,
}

impl tickerplant::strategy::Strategy for Holder {
    type Client = BacktestClient;

    fn client(&self) -> &BacktestClient {
        &self.client
    }
}

#[test]
fn strategy_exposes_its_client() {
    use_strategy(&Holder { client: engine() });
}

fn use_strategy<S: tickerplant::strategy::Strategy>(s: &S) {
    let _ = s.client();
}
