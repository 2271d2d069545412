//! What a run is configured with: the targets in their order, and the
//! priority that the order gives them.

use vstd::prelude::*;

verus! {

/// The settings of one worker configuration that the assistant reads.
#[derive(Debug, Clone, PartialEq)]
pub struct MinerIni {
    pub wallet: String,
}

/// A worker's settings file: the one section that is read.
#[derive(Debug, Clone, PartialEq)]
pub struct IniFile {
    pub ethash: MinerIni,
}

/// One target of a group, as configured.
#[derive(Debug, Clone, PartialEq)]
pub struct IniParameters {
    pub spawn_args: Vec<String>,
    pub path: String,
    pub root_chain: bool,
    pub allowances_to_use: Option<u32>,
    pub mine_at_free_allowances_from_max: u32,
    pub priority: u16,
}

/// One group: its endpoint, its worker executable, the fallback and the
/// targets, the most important first.
#[derive(Debug, Clone, PartialEq)]
pub struct Config {
    pub rpc: String,
    pub miner_dir: String,
    pub miner_exe: String,
    pub fallback_config: IniParameters,
    pub config_files: Vec<IniParameters>,
}

/// Why a configuration cannot be run.
#[derive(Debug, Clone, Copy, PartialEq, Eq, Structural)]
pub enum ConfigError {
    /// More targets than there are priorities.
    TooManyTargets,
    /// A shard target is on a chain that has no allowance unit.
    NoUnit,
}

/// The priority of the target at `index` among `count`: the first target
/// has the highest, the last has one.
pub open spec fn priority_at(count: int, index: int) -> int {
    count - index
}

/// `after` has the targets of `before` in their order, each unchanged but
/// for its priority, which is the one its place gives it.
pub open spec fn prioritised(before: Seq<IniParameters>, after: Seq<IniParameters>) -> bool {
    &&& after.len() == before.len()
    &&& forall|i: int|
        0 <= i < before.len() ==> #[trigger] after[i] == (IniParameters {
            priority: priority_at(before.len() as int, i) as u16,
            ..before[i]
        })
}

/// Gives each target the priority of its place: the number of targets for
/// the first, one less for each that follows. A list too long for the
/// priorities to tell its targets apart is refused.
pub fn assign_priorities(config_files: Vec<IniParameters>) -> (r: Result<
    Vec<IniParameters>,
    ConfigError,
>)
    ensures
        config_files.len() > u16::MAX ==> r == Err::<Vec<IniParameters>, ConfigError>(
            ConfigError::TooManyTargets,
        ),
        config_files.len() <= u16::MAX ==> (r matches Ok(v) && prioritised(config_files@, v@)),
{
    let len = config_files.len();
    if len > 65535 {
        return Err(ConfigError::TooManyTargets);
    }
    let ghost before = config_files@;
    let mut files = config_files;
    let mut index: usize = 0;
    while index < len
        invariant
            index <= len,
            len <= u16::MAX,
            files.len() == len,
            before.len() == len,
            forall|i: int|
                0 <= i < index ==> #[trigger] files[i] == (IniParameters {
                    priority: priority_at(len as int, i) as u16,
                    ..before[i]
                }),
            forall|i: int| index <= i < len ==> #[trigger] files[i] == before[i],
        decreases len - index,
    {
        files[index].priority = (len - index) as u16;
        index += 1;
    }
    Ok(files)
}

/// Earlier targets outrank later ones, and no two share a priority.
pub proof fn lemma_priorities_follow_order(
    before: Seq<IniParameters>,
    after: Seq<IniParameters>,
    i: int,
    j: int,
)
    requires
        before.len() <= u16::MAX,
        prioritised(before, after),
        0 <= i < j < after.len(),
    ensures
        after[i].priority > after[j].priority,
        after[j].priority >= 1,
{
    assert(after[i].priority == priority_at(before.len() as int, i) as u16);
    assert(after[j].priority == priority_at(before.len() as int, j) as u16);
}

} // verus!
