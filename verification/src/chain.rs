//! The chains a token list covers, and where each keeps its data.

use vstd::prelude::*;

verus! {

/// A supported chain.
#[derive(PartialEq, Eq, Structural, Clone, Copy, Debug)]
pub enum Chain {
    Ethereum,
    Optimism,
    BinanceSmartChain,
    Base,
    Arbitrum,
}

/// The numeric id of a chain.
pub open spec fn chain_id_of(c: Chain) -> u64 {
    match c {
        Chain::Ethereum => 1,
        Chain::Optimism => 10,
        Chain::BinanceSmartChain => 56,
        Chain::Base => 8453,
        Chain::Arbitrum => 42161,
    }
}

/// The chain with a numeric id, if it is supported.
pub open spec fn chain_with_id(id: u64) -> Option<Chain> {
    if id == 1 {
        Some(Chain::Ethereum)
    } else if id == 10 {
        Some(Chain::Optimism)
    } else if id == 56 {
        Some(Chain::BinanceSmartChain)
    } else if id == 8453 {
        Some(Chain::Base)
    } else if id == 42161 {
        Some(Chain::Arbitrum)
    } else {
        None
    }
}

/// The directory of the token-list repository that holds a chain's assets.
pub open spec fn chain_dir_name(c: Chain) -> Seq<char> {
    match c {
        Chain::Ethereum => "ethereum"@,
        Chain::Optimism => "optimism"@,
        Chain::BinanceSmartChain => "binance"@,
        Chain::Base => "base"@,
        Chain::Arbitrum => "arbitrum"@,
    }
}

/// The environment variable that names a chain's RPC endpoint.
pub open spec fn chain_rpc_var(c: Chain) -> Seq<char> {
    match c {
        Chain::Ethereum => "ETHEREUM_RPC"@,
        Chain::Optimism => "OPTIMISM_RPC"@,
        Chain::BinanceSmartChain => "BINANCE_RPC"@,
        Chain::Base => "BASE_RPC"@,
        Chain::Arbitrum => "ARBITRUM_RPC"@,
    }
}

/// The supported chains, in the order they are processed.
pub open spec fn supported_chain_seq() -> Seq<Chain> {
    seq![Chain::Ethereum, Chain::Optimism, Chain::BinanceSmartChain, Chain::Base, Chain::Arbitrum]
}

impl Chain {
    /// The chain's numeric id.
    pub fn id(&self) -> (res: u64)
        ensures
            res == chain_id_of(*self),
    {
        match self {
            Chain::Ethereum => 1,
            Chain::Optimism => 10,
            Chain::BinanceSmartChain => 56,
            Chain::Base => 8453,
            Chain::Arbitrum => 42161,
        }
    }

    /// The supported chain with this id, if any.
    pub fn from_id(id: u64) -> (res: Option<Chain>)
        ensures
            res == chain_with_id(id),
    {
        if id == 1 {
            Some(Chain::Ethereum)
        } else if id == 10 {
            Some(Chain::Optimism)
        } else if id == 56 {
            Some(Chain::BinanceSmartChain)
        } else if id == 8453 {
            Some(Chain::Base)
        } else if id == 42161 {
            Some(Chain::Arbitrum)
        } else {
            None
        }
    }

    /// Whether this is the BNB Smart Chain, whose tokens are not listed.
    pub fn is_bsc(&self) -> (res: bool)
        ensures
            res == (*self == Chain::BinanceSmartChain),
    {
        match self {
            Chain::BinanceSmartChain => true,
            _ => false,
        }
    }

    /// The name of the chain's directory in the token-list repository.
    pub fn dir_name(&self) -> (res: &'static str)
        ensures
            res@ == chain_dir_name(*self),
    {
        match self {
            Chain::Ethereum => "ethereum",
            Chain::Optimism => "optimism",
            Chain::BinanceSmartChain => "binance",
            Chain::Base => "base",
            Chain::Arbitrum => "arbitrum",
        }
    }

    /// The environment variable holding the chain's RPC endpoint.
    pub fn rpc_env_var(&self) -> (res: &'static str)
        ensures
            res@ == chain_rpc_var(*self),
            res@ == ascii_upper(chain_dir_name(*self)) + "_RPC"@,
    {
        proof {
            lemma_rpc_var_follows_dir_name(*self);
        }
        match self {
            Chain::Ethereum => "ETHEREUM_RPC",
            Chain::Optimism => "OPTIMISM_RPC",
            Chain::BinanceSmartChain => "BINANCE_RPC",
            Chain::Base => "BASE_RPC",
            Chain::Arbitrum => "ARBITRUM_RPC",
        }
    }

    /// The supported chains, in the order they are processed.
    pub fn supported() -> (res: Vec<Chain>)
        ensures
            res@ == supported_chain_seq(),
    {
        let v = vec![Chain::Ethereum, Chain::Optimism, Chain::BinanceSmartChain, Chain::Base, Chain::Arbitrum];
        assert(v@ =~= supported_chain_seq());
        v
    }
}

/// The asset directory name for a numeric chain id; `None` for an unsupported id.
pub fn dir_name_for_id(id: u64) -> (res: Option<&'static str>)
    ensures
        match chain_with_id(id) {
            Some(c) => res matches Some(s) && s@ == chain_dir_name(c),
            None => res is None,
        },
{
    match Chain::from_id(id) {
        Some(c) => Some(c.dir_name()),
        None => None,
    }
}

/// A chain's id identifies it: reading the id back gives the chain.
pub proof fn lemma_chain_id_roundtrip(c: Chain)
    ensures
        chain_with_id(chain_id_of(c)) == Some(c),
{
}

/// Exactly the supported chains have an id that is read back as a chain.
pub proof fn lemma_chain_ids_supported(id: u64)
    ensures
        chain_with_id(id) matches Some(c) ==> chain_id_of(c) == id && supported_chain_seq().contains(c),
        chain_with_id(id) is None ==> forall|i: int| 0 <= i < 5 ==> chain_id_of(#[trigger] supported_chain_seq()[i]) != id,
{
    if let Some(c) = chain_with_id(id) {
        let i: int = match c {
            Chain::Ethereum => 0,
            Chain::Optimism => 1,
            Chain::BinanceSmartChain => 2,
            Chain::Base => 3,
            Chain::Arbitrum => 4,
        };
        assert(supported_chain_seq()[i] == c);
    }
}

/// `c` in upper case, for the ASCII letters `a`-`z`.
pub open spec fn ascii_upper_char(c: char) -> char {
    if 'a' <= c <= 'z' { ((c as u32) - 32) as char } else { c }
}

/// `s` with its ASCII lower-case letters in upper case.
pub open spec fn ascii_upper(s: Seq<char>) -> Seq<char> {
    Seq::new(s.len(), |i: int| ascii_upper_char(s[i]))
}

/// A chain's RPC variable is named after its asset directory: the directory
/// name in upper case, then `_RPC`.
pub proof fn lemma_rpc_var_follows_dir_name(c: Chain)
    ensures
        chain_rpc_var(c) == ascii_upper(chain_dir_name(c)) + "_RPC"@,
{
    reveal_strlit("_RPC");
    match c {
        Chain::Ethereum => {
            reveal_strlit("ethereum");
            reveal_strlit("ETHEREUM_RPC");
            assert(chain_rpc_var(c) =~= ascii_upper(chain_dir_name(c)) + "_RPC"@);
        },
        Chain::Optimism => {
            reveal_strlit("optimism");
            reveal_strlit("OPTIMISM_RPC");
            assert(chain_rpc_var(c) =~= ascii_upper(chain_dir_name(c)) + "_RPC"@);
        },
        Chain::BinanceSmartChain => {
            reveal_strlit("binance");
            reveal_strlit("BINANCE_RPC");
            assert(chain_rpc_var(c) =~= ascii_upper(chain_dir_name(c)) + "_RPC"@);
        },
        Chain::Base => {
            reveal_strlit("base");
            reveal_strlit("BASE_RPC");
            assert(chain_rpc_var(c) =~= ascii_upper(chain_dir_name(c)) + "_RPC"@);
        },
        Chain::Arbitrum => {
            reveal_strlit("arbitrum");
            reveal_strlit("ARBITRUM_RPC");
            assert(chain_rpc_var(c) =~= ascii_upper(chain_dir_name(c)) + "_RPC"@);
        },
    }
}

/// Distinct chains keep their assets in distinct directories and read
/// distinct RPC variables.
pub proof fn lemma_chain_names_distinct(c1: Chain, c2: Chain)
    requires
        c1 != c2,
    ensures
        chain_dir_name(c1) != chain_dir_name(c2),
        chain_rpc_var(c1) != chain_rpc_var(c2),
{
    reveal_strlit("ethereum");
    reveal_strlit("optimism");
    reveal_strlit("binance");
    reveal_strlit("base");
    reveal_strlit("arbitrum");
    reveal_strlit("ETHEREUM_RPC");
    reveal_strlit("OPTIMISM_RPC");
    reveal_strlit("BINANCE_RPC");
    reveal_strlit("BASE_RPC");
    reveal_strlit("ARBITRUM_RPC");
    let d1 = chain_dir_name(c1);
    let d2 = chain_dir_name(c2);
    let r1 = chain_rpc_var(c1);
    let r2 = chain_rpc_var(c2);
    if d1 == d2 {
        assert(d1.len() == d2.len());
        assert(d1[0] == d2[0]);
        assert(d1[1] == d2[1]);
    }
    if r1 == r2 {
        assert(r1.len() == r2.len());
        assert(r1[0] == r2[0]);
        assert(r1[1] == r2[1]);
    }
}

} // verus!
