use vstd::prelude::*;
use crate::scoring::BonusConfig;

verus! {

/// The kinds of failure that an optimization call reports.
#[derive(Clone, Copy, Debug, PartialEq, Eq, Structural)]
pub enum ErrorKind {
    /// A bonus configuration tag outside the four, or no workers.
    InvalidConfig,
    /// The host's inputs could not be decoded.
    Decode,
    /// A coordinate names a seat that does not exist.
    BadSeat,
    /// The result could not be encoded for the host.
    Encode,
}

/// The configuration that a bonus tag names.
pub open spec fn tag_config(tag: Seq<char>) -> Option<BonusConfig> {
    if tag == "none"@ {
        Some(BonusConfig::NoBonus)
    } else if tag == "left"@ {
        Some(BonusConfig::Left)
    } else if tag == "right"@ {
        Some(BonusConfig::Right)
    } else if tag == "both"@ {
        Some(BonusConfig::Both)
    } else {
        None
    }
}

/// Checks the run configuration before any work starts: the bonus tag must be
/// one of "none", "left", "right", "both", and at least one worker must run.
pub fn parse_run_config(bonus_tag: &String, workers: usize) -> (r: Result<BonusConfig, ErrorKind>)
    ensures
        r matches Ok(c) ==> tag_config(bonus_tag@) == Some(c) && workers > 0,
        r is Err <==> tag_config(bonus_tag@) is None || workers == 0,
        r matches Err(e) ==> e == ErrorKind::InvalidConfig,
{
    if workers == 0 {
        return Err(ErrorKind::InvalidConfig);
    }
    if *bonus_tag == "none".to_owned() {
        Ok(BonusConfig::NoBonus)
    } else if *bonus_tag == "left".to_owned() {
        Ok(BonusConfig::Left)
    } else if *bonus_tag == "right".to_owned() {
        Ok(BonusConfig::Right)
    } else if *bonus_tag == "both".to_owned() {
        Ok(BonusConfig::Both)
    } else {
        Err(ErrorKind::InvalidConfig)
    }
}

} // verus!
