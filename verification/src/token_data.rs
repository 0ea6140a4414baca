use vstd::prelude::*;

verus! {

/// One token of the list: where it lives, how it is called, and its icons
/// (PNG bytes at 32 and 24 pixels).
#[derive(Clone, Debug, PartialEq, Eq)]
pub struct TokenData {
    pub chain_id: u64,
    pub address: String,
    pub name: String,
    pub symbol: String,
    pub decimals: u8,
    pub icon_data_x32: Vec<u8>,
    pub icon_data_x24: Vec<u8>,
}

/// The mathematical value of a [`TokenData`]: strings as character sequences,
/// icons as byte sequences.
pub struct TokenRecord {
    pub chain_id: u64,
    pub address: Seq<char>,
    pub name: Seq<char>,
    pub symbol: Seq<char>,
    pub decimals: u8,
    pub icon_data_x32: Seq<u8>,
    pub icon_data_x24: Seq<u8>,
}

impl View for TokenData {
    type V = TokenRecord;

    open spec fn view(&self) -> TokenRecord {
        TokenRecord {
            chain_id: self.chain_id,
            address: self.address@,
            name: self.name@,
            symbol: self.symbol@,
            decimals: self.decimals,
            icon_data_x32: self.icon_data_x32@,
            icon_data_x24: self.icon_data_x24@,
        }
    }
}

impl TokenData {
    /// Builds a record from its parts, each stored as given.
    pub fn new(
        chain_id: u64,
        address: String,
        name: String,
        symbol: String,
        decimals: u8,
        icon_data_x32: Vec<u8>,
        icon_data_x24: Vec<u8>,
    ) -> (res: Self)
        ensures
            res.chain_id == chain_id,
            res.address@ == address@,
            res.name@ == name@,
            res.symbol@ == symbol@,
            res.decimals == decimals,
            res.icon_data_x32@ == icon_data_x32@,
            res.icon_data_x24@ == icon_data_x24@,
    {
        TokenData { chain_id, address, name, symbol, decimals, icon_data_x32, icon_data_x24 }
    }
}

} // verus!
