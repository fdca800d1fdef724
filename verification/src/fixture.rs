use vstd::prelude::*;

verus! {

/// The fixture registry: the single mutable configuration value of the mock,
/// the liquidity-token address reported by `Pair {}` query answers.
///
/// It is threaded explicitly into whatever owns the mock (dependency
/// injection) rather than living in hidden process-wide state; a host that
/// must share one value across calls keeps a single `FixtureConfig` behind
/// its own lock.
pub struct FixtureConfig {
    liquidity_token: String,
}

impl View for FixtureConfig {
    type V = Seq<char>;

    closed spec fn view(&self) -> Seq<char> {
        self.liquidity_token@
    }
}

impl FixtureConfig {
    /// A fresh registry holds the placeholder value `"string"` until a
    /// setter call overwrites it.
    pub fn new() -> (r: FixtureConfig)
        ensures
            r@ == "string"@,
    {
        FixtureConfig { liquidity_token: String::from_str("string") }
    }
}

/// Unconditionally overwrites the stored liquidity-token address and returns
/// the value now stored, which is always the value just passed in.
pub fn set_liq_token_addr(cfg: &mut FixtureConfig, new_addr: String) -> (r: String)
    ensures
        final(cfg)@ == new_addr@,
        r@ == new_addr@,
{
    let r = new_addr.clone();
    cfg.liquidity_token = new_addr;
    r
}

/// Reads the currently stored liquidity-token address.
pub fn get_liq_token_addr(cfg: &FixtureConfig) -> (r: String)
    ensures
        r@ == cfg@,
{
    cfg.liquidity_token.clone()
}

} // verus!
