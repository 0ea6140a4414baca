//! The decisions taken for one token directory while building a token list:
//! a state machine that tells its driver what to look at next, takes what the
//! driver found, and ends with the token kept, skipped, or failed.

use vstd::prelude::*;
use crate::chain::{chain_id_of, Chain};
use crate::icons::{icons_of, image_is_empty, is_png_start, make_icons, png_encoding_owed, IconError};
use crate::token_data::TokenData;
use crate::token_info::{address_of_text, Erc20Token, TokenInfo};

verus! {

/// Why a token directory yields no token.
#[derive(PartialEq, Eq, Structural, Clone, Copy, Debug)]
pub enum SkipReason {
    /// Tokens of this chain are not listed.
    UnsupportedChain,
    /// There is no `logo.png` file.
    NoLogo,
    /// There is no `info.json` file.
    NoInfo,
    /// The description's address is not a valid address.
    InvalidAddress,
    /// No pool holds enough liquidity for the token.
    NotLiquid,
    /// The logo could not be opened as an image.
    UnreadableLogo,
}

/// How the handling of a token directory ends.
#[derive(Debug)]
pub enum EntryOutcome {
    Kept(TokenData),
    Skipped(SkipReason),
    Failed(IconError),
}

/// What the driver must do next.
#[derive(Debug)]
pub enum EntryStep {
    /// Find whether `logo.png` and `info.json` exist as files.
    CheckFiles,
    /// Read and parse `info.json`.
    ReadInfo,
    /// Find whether this token is one of the chain's base tokens.
    ClassifyToken(Erc20Token),
    /// Find whether a pool holds enough liquidity for this token.
    CheckLiquidity(Erc20Token),
    /// Open `logo.png` as an image.
    OpenLogo,
    /// Nothing more: the directory's outcome.
    Finished(EntryOutcome),
}

/// What the driver found.
#[derive(Debug)]
pub enum EntryEvent {
    Files { logo_is_file: bool, info_is_file: bool },
    InfoRead(TokenInfo),
    BaseToken(bool),
    Liquidity(bool),
    Logo(Option<image::DynamicImage>),
}

/// Where the handling of a directory stands.
#[derive(Debug)]
pub enum EntryPhase {
    AwaitFiles,
    AwaitInfo,
    AwaitClass(TokenInfo),
    AwaitLiquidity(TokenInfo),
    AwaitLogo(TokenInfo),
    Done,
}

/// The handling of one token directory of a chain.
#[derive(Debug)]
pub struct EntryMachine {
    pub chain: Chain,
    pub phase: EntryPhase,
}

/// Whether `event` answers the step asked for in `phase`.
pub open spec fn answers(phase: EntryPhase, event: EntryEvent) -> bool {
    match phase {
        EntryPhase::AwaitFiles => event is Files,
        EntryPhase::AwaitInfo => event is InfoRead,
        EntryPhase::AwaitClass(_) => event is BaseToken,
        EntryPhase::AwaitLiquidity(_) => event is Liquidity,
        EntryPhase::AwaitLogo(_) => event is Logo,
        EntryPhase::Done => false,
    }
}

/// Every description the machine holds has a valid address.
pub open spec fn entry_wf(m: EntryMachine) -> bool {
    match m.phase {
        EntryPhase::AwaitClass(info) => address_of_text(info.address@) is Some,
        EntryPhase::AwaitLiquidity(info) => address_of_text(info.address@) is Some,
        EntryPhase::AwaitLogo(info) => address_of_text(info.address@) is Some,
        _ => true,
    }
}

/// `tok` is the ERC-20 token that `info` describes on `chain`.
pub open spec fn token_of_info(tok: Erc20Token, info: TokenInfo, chain: Chain) -> bool {
    &&& tok.chain_id == chain_id_of(chain)
    &&& address_of_text(info.address@) == Some(tok.address@)
    &&& tok.name@ == info.name@
    &&& tok.symbol@ == info.symbol@
    &&& tok.decimals == info.decimals
}

/// `t` is the token data that `info` describes on `chain`, whatever its icons.
pub open spec fn data_of_info(t: TokenData, info: TokenInfo, chain: Chain) -> bool {
    &&& t.chain_id == chain_id_of(chain)
    &&& t.address@ == info.address@
    &&& t.name@ == info.name@
    &&& t.symbol@ == info.symbol@
    &&& t.decimals == info.decimals
}

/// How the handling of a directory whose logo `img` was read may end: kept,
/// with the description's data and the (non-empty) logo's two PNG icons; or failed, which
/// happens only when encoding was not owed to succeed.
pub open spec fn logo_outcome(outcome: EntryOutcome, info: TokenInfo, chain: Chain, img: image::DynamicImage) -> bool {
    match outcome {
        EntryOutcome::Kept(t) => data_of_info(t, info, chain) && !image_is_empty(img) && icons_of(img, t.icon_data_x32@, t.icon_data_x24@),
        EntryOutcome::Failed(_) => !png_encoding_owed(img),
        EntryOutcome::Skipped(_) => false,
    }
}

/// The outcome for a directory whose icons were made (or not): with both
/// icons, the token described by `info` on `chain`, carrying them; otherwise
/// the encoding error.
pub fn icons_outcome(info: TokenInfo, chain: Chain, icons: Result<(Vec<u8>, Vec<u8>), IconError>) -> (res: EntryOutcome)
    ensures
        match icons {
            Ok((large, small)) => res matches EntryOutcome::Kept(t) && data_of_info(t, info, chain)
                && t.icon_data_x32@ == large@ && t.icon_data_x24@ == small@,
            Err(e) => res == EntryOutcome::Failed(e),
        },
{
    match icons {
        Ok((x32, x24)) => EntryOutcome::Kept(
            TokenData::new(chain.id(), info.address, info.name, info.symbol, info.decimals, x32, x24),
        ),
        Err(e) => EntryOutcome::Failed(e),
    }
}

/// A step that ends the handling with a skip for `reason`.
pub open spec fn skipped(m: EntryMachine, step: EntryStep, reason: SkipReason) -> bool {
    &&& m.phase is Done
    &&& step matches EntryStep::Finished(EntryOutcome::Skipped(r)) && r == reason
}

impl EntryMachine {
    /// Starts handling a directory of `chain`: tokens of the BNB Smart Chain
    /// are skipped at once; otherwise the files are checked first.
    pub fn start(chain: Chain) -> (res: (EntryMachine, EntryStep))
        ensures
            res.0.chain == chain,
            entry_wf(res.0),
            chain == Chain::BinanceSmartChain ==> skipped(res.0, res.1, SkipReason::UnsupportedChain),
            chain != Chain::BinanceSmartChain ==> res.0.phase is AwaitFiles && res.1 is CheckFiles,
    {
        if chain.is_bsc() {
            (EntryMachine { chain, phase: EntryPhase::Done }, EntryStep::Finished(EntryOutcome::Skipped(SkipReason::UnsupportedChain)))
        } else {
            (EntryMachine { chain, phase: EntryPhase::AwaitFiles }, EntryStep::CheckFiles)
        }
    }

    /// Whether every description the machine holds has a valid address, as
    /// machines made by [`EntryMachine::start`] and [`EntryMachine::advance`] do.
    pub fn is_well_formed(&self) -> (res: bool)
        ensures
            res == entry_wf(*self),
    {
        match &self.phase {
            EntryPhase::AwaitClass(info) => info.checked_address().is_some(),
            EntryPhase::AwaitLiquidity(info) => info.checked_address().is_some(),
            EntryPhase::AwaitLogo(info) => info.checked_address().is_some(),
            _ => true,
        }
    }

    /// Whether `event` answers the step this machine asked for.
    pub fn accepts(&self, event: &EntryEvent) -> (res: bool)
        ensures
            res == answers(self.phase, *event),
    {
        match (&self.phase, event) {
            (EntryPhase::AwaitFiles, EntryEvent::Files { .. }) => true,
            (EntryPhase::AwaitInfo, EntryEvent::InfoRead(_)) => true,
            (EntryPhase::AwaitClass(_), EntryEvent::BaseToken(_)) => true,
            (EntryPhase::AwaitLiquidity(_), EntryEvent::Liquidity(_)) => true,
            (EntryPhase::AwaitLogo(_), EntryEvent::Logo(_)) => true,
            _ => false,
        }
    }

    /// Takes what the driver found and decides the next step.
    pub fn advance(self, event: EntryEvent) -> (res: (EntryMachine, EntryStep))
        requires
            entry_wf(self),
            answers(self.phase, event),
        ensures
            res.0.chain == self.chain,
            entry_wf(res.0),
            self.phase is AwaitFiles ==> (event matches EntryEvent::Files { logo_is_file, info_is_file } ==> {
                if !logo_is_file {
                    skipped(res.0, res.1, SkipReason::NoLogo)
                } else if !info_is_file {
                    skipped(res.0, res.1, SkipReason::NoInfo)
                } else {
                    res.0.phase is AwaitInfo && res.1 is ReadInfo
                }
            }),
            self.phase is AwaitInfo ==> (event matches EntryEvent::InfoRead(info) ==> {
                if address_of_text(info.address@) is None {
                    skipped(res.0, res.1, SkipReason::InvalidAddress)
                } else {
                    &&& res.0.phase == EntryPhase::AwaitClass(info)
                    &&& res.1 matches EntryStep::ClassifyToken(tok) && token_of_info(tok, info, self.chain)
                }
            }),
            self.phase matches EntryPhase::AwaitClass(info) ==> (event matches EntryEvent::BaseToken(is_base) ==> {
                if is_base {
                    res.0.phase == EntryPhase::AwaitLogo(info) && res.1 is OpenLogo
                } else {
                    &&& res.0.phase == EntryPhase::AwaitLiquidity(info)
                    &&& res.1 matches EntryStep::CheckLiquidity(tok) && token_of_info(tok, info, self.chain)
                }
            }),
            self.phase matches EntryPhase::AwaitLiquidity(info) ==> (event matches EntryEvent::Liquidity(liquid) ==> {
                if liquid {
                    res.0.phase == EntryPhase::AwaitLogo(info) && res.1 is OpenLogo
                } else {
                    skipped(res.0, res.1, SkipReason::NotLiquid)
                }
            }),
            self.phase matches EntryPhase::AwaitLogo(info) ==> (event matches EntryEvent::Logo(logo) ==> {
                &&& res.0.phase is Done
                &&& logo is None ==> skipped(res.0, res.1, SkipReason::UnreadableLogo)
                &&& logo matches Some(img) ==> (res.1 matches EntryStep::Finished(outcome) && logo_outcome(outcome, info, self.chain, img))
                &&& res.1 matches EntryStep::Finished(EntryOutcome::Kept(t)) ==> data_of_info(t, info, self.chain)
                    && is_png_start(t.icon_data_x32@) && is_png_start(t.icon_data_x24@)
            }),
    {
        let chain = self.chain;
        match (self.phase, event) {
            (EntryPhase::AwaitFiles, EntryEvent::Files { logo_is_file, info_is_file }) => {
                if !logo_is_file {
                    (EntryMachine { chain, phase: EntryPhase::Done }, EntryStep::Finished(EntryOutcome::Skipped(SkipReason::NoLogo)))
                } else if !info_is_file {
                    (EntryMachine { chain, phase: EntryPhase::Done }, EntryStep::Finished(EntryOutcome::Skipped(SkipReason::NoInfo)))
                } else {
                    (EntryMachine { chain, phase: EntryPhase::AwaitInfo }, EntryStep::ReadInfo)
                }
            },
            (EntryPhase::AwaitInfo, EntryEvent::InfoRead(info)) => {
                if info.checked_address().is_none() {
                    (EntryMachine { chain, phase: EntryPhase::Done }, EntryStep::Finished(EntryOutcome::Skipped(SkipReason::InvalidAddress)))
                } else {
                    let tok = info.to_erc20(chain.id());
                    (EntryMachine { chain, phase: EntryPhase::AwaitClass(info) }, EntryStep::ClassifyToken(tok))
                }
            },
            (EntryPhase::AwaitClass(info), EntryEvent::BaseToken(is_base)) => {
                if is_base {
                    (EntryMachine { chain, phase: EntryPhase::AwaitLogo(info) }, EntryStep::OpenLogo)
                } else {
                    let tok = info.to_erc20(chain.id());
                    (EntryMachine { chain, phase: EntryPhase::AwaitLiquidity(info) }, EntryStep::CheckLiquidity(tok))
                }
            },
            (EntryPhase::AwaitLiquidity(info), EntryEvent::Liquidity(liquid)) => {
                if liquid {
                    (EntryMachine { chain, phase: EntryPhase::AwaitLogo(info) }, EntryStep::OpenLogo)
                } else {
                    (EntryMachine { chain, phase: EntryPhase::Done }, EntryStep::Finished(EntryOutcome::Skipped(SkipReason::NotLiquid)))
                }
            },
            (EntryPhase::AwaitLogo(info), EntryEvent::Logo(logo)) => {
                match logo {
                    None => (
                        EntryMachine { chain, phase: EntryPhase::Done },
                        EntryStep::Finished(EntryOutcome::Skipped(SkipReason::UnreadableLogo)),
                    ),
                    Some(img) => {
                        let outcome = icons_outcome(info, chain, make_icons(&img));
                        (EntryMachine { chain, phase: EntryPhase::Done }, EntryStep::Finished(outcome))
                    },
                }
            },
            (phase, _) => {
                proof {
                    assert(false);
                }
                (EntryMachine { chain, phase }, EntryStep::CheckFiles)
            },
        }
    }
}

} // verus!
