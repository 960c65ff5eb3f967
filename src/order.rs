use vstd::prelude::*;

use crate::clock::now_nanos;
use crate::identity::{new_uuid, Identity};
use crate::marketdata::{MarketBook, MarketTrade, Quote, Rate};

verus! {

/// Kind of a synthetic order; the text is a free-form note.
#[derive(Debug)]
pub enum OrderType {
    Limit(String),
    Market(String),
}

impl OrderType {
    /// An owned copy.
    pub fn duplicate(&self) -> (r: OrderType)
        ensures
            r == *self,
    {
        match self {
            OrderType::Limit(s) => OrderType::Limit(s.clone()),
            OrderType::Market(s) => OrderType::Market(s.clone()),
        }
    }
}

#[derive(Clone, Copy, Debug, PartialEq, Eq, Structural)]
pub enum OrderStatus {
    New,
    Filled,
    Canceled,
}

/// A synthetic order held by the matching engine.
pub struct Order {
    pub timestamp: i128,
    /// When the order counts as created on the market.
    pub market_created_timestamp: i128,
    pub received_timestamp: i128,
    pub sym: String,
    /// +1 buy, -1 sell.
    pub side: i16,
    pub price: i64,
    pub amount: u64,
    pub executed_amount: u64,
    /// The quote an order was filled against; `None` until it fills.
    pub executed_price: Option<Quote>,
    pub order_type: OrderType,
    pub order_status: OrderStatus,
    pub venue: String,
    pub order_id: u64,
    pub model_id: String,
    pub data_center: String,
    pub process_id: String,
    pub universal_id: String,
    pub latency_tracker: String,
    pub misc: String,
}

impl Order {
    /// A new order created at `timestamp`, nothing executed yet.
    pub fn new(
        timestamp: i128,
        sym: &str,
        side: i16,
        price: i64,
        amount: u64,
        order_type: OrderType,
        venue: &str,
        model_id: &str,
        order_id: u64,
        id: &Identity,
    ) -> (r: Order)
        ensures
            r.timestamp == timestamp,
            r.market_created_timestamp == timestamp,
            r.received_timestamp == timestamp,
            r.sym@ == sym@,
            r.side == side,
            r.price == price,
            r.amount == amount,
            r.executed_amount == 0,
            r.executed_price is None,
            r.order_type == order_type,
            r.order_status == OrderStatus::New,
            r.venue@ == venue@,
            r.order_id == order_id,
            r.model_id@ == model_id@,
            r.data_center == id.data_center,
            r.process_id == id.process_id,
            r.universal_id@.len() == 36,
    {
        Order {
            timestamp,
            market_created_timestamp: timestamp,
            received_timestamp: timestamp,
            sym: sym.to_owned(),
            side,
            price,
            amount,
            executed_amount: 0,
            executed_price: None,
            order_type,
            order_status: OrderStatus::New,
            venue: venue.to_owned(),
            order_id,
            model_id: model_id.to_owned(),
            data_center: id.data_center.clone(),
            process_id: id.process_id.clone(),
            universal_id: new_uuid(),
            latency_tracker: String::new(),
            misc: String::new(),
        }
    }

    /// An owned copy.
    pub fn duplicate(&self) -> (r: Order)
        ensures
            r == *self,
    {
        Order {
            timestamp: self.timestamp,
            market_created_timestamp: self.market_created_timestamp,
            received_timestamp: self.received_timestamp,
            sym: self.sym.clone(),
            side: self.side,
            price: self.price,
            amount: self.amount,
            executed_amount: self.executed_amount,
            executed_price: self.executed_price,
            order_type: self.order_type.duplicate(),
            order_status: self.order_status,
            venue: self.venue.clone(),
            order_id: self.order_id,
            model_id: self.model_id.clone(),
            data_center: self.data_center.clone(),
            process_id: self.process_id.clone(),
            universal_id: self.universal_id.clone(),
            latency_tracker: self.latency_tracker.clone(),
            misc: self.misc.clone(),
        }
    }
}

/// Net holding of one model in one instrument at one venue.
pub struct Position {
    pub timestamp: i128,
    pub sym: String,
    pub venue: String,
    pub amount: i64,
    pub cost: i64,
    pub model_id: String,
    pub data_center: String,
    pub process_id: String,
    pub universal_id: String,
    pub latency_tracker: String,
    pub misc: String,
}

impl Position {
    /// A flat position stamped now.
    pub fn new(sym: &str, venue: &str, model_id: &str, id: &Identity) -> (r: Position)
        ensures
            r.sym@ == sym@,
            r.venue@ == venue@,
            r.model_id@ == model_id@,
            r.amount == 0,
            r.cost == 0,
            r.data_center == id.data_center,
            r.process_id == id.process_id,
    {
        Position {
            timestamp: now_nanos(),
            sym: sym.to_owned(),
            venue: venue.to_owned(),
            amount: 0,
            cost: 0,
            model_id: model_id.to_owned(),
            data_center: id.data_center.clone(),
            process_id: id.process_id.clone(),
            universal_id: new_uuid(),
            latency_tracker: String::new(),
            misc: String::new(),
        }
    }

    /// Sign of the net amount: +1 long, -1 short, 0 flat.
    pub fn side(&self) -> (r: i16)
        ensures
            r == (if self.amount > 0 {
                1i16
            } else if self.amount < 0 {
                -1i16
            } else {
                0i16
            }),
    {
        if self.amount > 0 {
            1
        } else if self.amount < 0 {
            -1
        } else {
            0
        }
    }
}

/// A fill of one order.
pub struct Execution {
    pub timestamp: i128,
    pub market_created_timestamp: i128,
    pub received_timestamp: i128,
    pub venue: String,
    pub sym: String,
    pub side: i16,
    pub price: i64,
    pub amount: u64,
    pub execution_id: String,
    pub source_order_id: String,
    pub data_center: String,
    pub process_id: String,
    pub universal_id: String,
    pub latency_tracker: String,
    pub misc: String,
}

impl Execution {
    /// A fill record stamped now.
    pub fn new(
        sym: &str,
        side: i16,
        price: i64,
        amount: u64,
        venue: &str,
        source_order_id: String,
        execution_id: String,
        id: &Identity,
    ) -> (r: Execution)
        ensures
            r.sym@ == sym@,
            r.side == side,
            r.price == price,
            r.amount == amount,
            r.venue@ == venue@,
            r.source_order_id == source_order_id,
            r.execution_id == execution_id,
            r.timestamp == r.market_created_timestamp,
            r.timestamp == r.received_timestamp,
            r.data_center == id.data_center,
            r.process_id == id.process_id,
    {
        let t = now_nanos();
        Execution {
            timestamp: t,
            market_created_timestamp: t,
            received_timestamp: t,
            venue: venue.to_owned(),
            sym: sym.to_owned(),
            side,
            price,
            amount,
            execution_id,
            source_order_id,
            data_center: id.data_center.clone(),
            process_id: id.process_id.clone(),
            universal_id: new_uuid(),
            latency_tracker: String::new(),
            misc: String::new(),
        }
    }
}

/// Any record the system produces or consumes internally.
pub enum InternalData {
    Order(Order),
    Position(Position),
    MarketBook(MarketBook),
    Rate(Rate),
    MarketTrade(MarketTrade),
}

} // verus!
