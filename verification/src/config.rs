use vstd::prelude::*;

verus! {

/// Static configuration the pipeline consumes.  It is assembled by the
/// process bootstrap and read-only afterwards.
#[derive(Clone)]
pub struct Config {
    /// Websocket endpoint that streams new-block-head notifications.
    pub ws_endpoint: String,
    /// HTTP JSON-RPC endpoint used for read-only contract calls.
    pub rpc_endpoint: String,
    /// Address of the on-chain data-provider contract.
    pub v3_pool_address: String,
    /// Path of the durable checkpoint artifact.
    pub checkpoint_file: String,
    /// Path of the append-only record sink.
    pub csv_file: String,
    /// Number of most-recent blocks considered mutable by a reorg.
    pub max_reorg_depth: u64,
    /// Ceiling on outbound RPC requests per interval.
    pub rate_limit: u32,
}

} // verus!
