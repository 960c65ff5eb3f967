use vstd::prelude::*;

use crate::backtest::ExecutionClient;

verus! {

/// A trading model, bound to the execution client it sends orders through.
pub trait Strategy {
    type Client: ExecutionClient;

    fn client(&self) -> &Self::Client;
}

} // verus!
