//! The limits that environment variables set.
use crate::model::CapsuleOriginalMode;
use crate::scan;
use crate::scan::{lower_text, trim};
use crate::text;
use crate::text::{parse_size, same};
use vstd::prelude::*;
use vstd::string::*;

verus! {

pub const PROOF_MAX_BYTES: usize = 16384;

pub const PROOF_MAX_FILES: usize = 8;

pub const GRAPH_MAX_NODES: usize = 200;

pub const GRAPH_MAX_BYTES: usize = 100_000;

pub const BATCH_MAX_BYTES: usize = 100_000;

pub const IMPACT_MAX_ROWS: usize = 5000;

/// How many inbound callers are shown at most.
pub const MAX_INBOUND_CALLERS: usize = 10;

/// From how many bytes on a pivot's source is condensed.
pub const MAX_PIVOT_BYTES: usize = 12_000;

pub const MAX_OUTBOUND: usize = 50;

pub const MAX_INBOUND_LOAD: usize = 64;

/// What the environment variables hold, each `None` where it is not set.
#[derive(Debug, Clone)]
pub struct Environment {
    /// `MARROW_CAPSULE_ORIGINAL_LEGACY`
    pub original_legacy: Option<String>,
    /// `MARROW_CAPSULE_ORIGINAL_MODE`
    pub original_mode: Option<String>,
    /// `MARROW_CAPSULE_ORIGINAL_MAX_BYTES`
    pub original_max_bytes: Option<String>,
    /// `MARROW_CAPSULE_PROOF_MAX_BYTES`
    pub proof_max_bytes: Option<String>,
    /// `MARROW_CAPSULE_PROOF_MAX_FILES`
    pub proof_max_files: Option<String>,
    /// `MARROW_CAPSULE_MAX_PIVOT_BYTES`
    pub max_pivot_bytes: Option<String>,
    /// `MARROW_CAPSULE_MAX_OUTBOUND`
    pub max_outbound: Option<String>,
    /// `MARROW_CAPSULE_MAX_INBOUND_LOAD`
    pub max_inbound_load: Option<String>,
    /// `MARROW_IMPACT_MAX_ROWS`
    pub impact_max_rows: Option<String>,
    /// `MARROW_BATCH_MAX_BYTES`
    pub batch_max_bytes: Option<String>,
    /// `MARROW_DEP_GRAPH_MAX_NODES`
    pub graph_max_nodes: Option<String>,
    /// `MARROW_DEP_GRAPH_MAX_BYTES`
    pub graph_max_bytes: Option<String>,
}

/// The limits in force.
#[derive(Debug, Clone, Copy)]
pub struct Settings {
    pub original_mode: CapsuleOriginalMode,
    /// Bytes that the raw text of a capsule may take, without limit when `None`.
    pub original_max_bytes: Option<usize>,
    pub proof_max_bytes: usize,
    pub proof_max_files: usize,
    pub max_pivot_bytes: usize,
    pub max_outbound: usize,
    pub max_inbound_load: usize,
    pub impact_max_rows: usize,
    pub batch_max_bytes: usize,
    pub graph_max_nodes: usize,
    pub graph_max_bytes: usize,
}

/// A setting's value: the positive number that the variable spells, else the default.
pub open spec fn positive_or(value: Option<Seq<char>>, default: usize) -> usize {
    match value {
        Some(s) => match text::parsed_size(s) {
            Some(n) => if n > 0 {
                n
            } else {
                default
            },
            None => default,
        },
        None => default,
    }
}

/// The positive number that a variable spells, if it does.
pub open spec fn positive_size(value: Option<Seq<char>>) -> Option<usize> {
    match value {
        Some(s) => match text::parsed_size(s) {
            Some(n) => if n > 0 {
                Some(n)
            } else {
                None
            },
            None => None,
        },
        None => None,
    }
}

/// A limit is the positive number that its variable spells; without one it is the default.
pub proof fn law_limits_are_taken_as_written(n: usize, default: usize)
    ensures
        positive_or(Some(text::decimal(n as nat)), default) == if n > 0 {
            n
        } else {
            default
        },
        positive_size(Some(text::decimal(n as nat))) == if n > 0 {
            Some(n)
        } else {
            None
        },
        positive_or(None, default) == default,
        positive_size(None) is None,
        forall|s: Seq<char>|
            text::parsed_size(s) is None ==> #[trigger] positive_or(Some(s), default) == default
                && positive_size(Some(s)) is None,
{
    text::law_numbers_are_read_as_written(n);
}

/// Whether a variable's value means yes.
pub open spec fn is_truthy(value: Option<Seq<char>>) -> bool {
    match value {
        Some(s) => {
            let t = scan::trimmed(s);
            ||| t == "1"@
            ||| t == "true"@
            ||| t == "TRUE"@
            ||| t == "yes"@
            ||| t == "YES"@
            ||| t == "on"@
            ||| t == "ON"@
        },
        None => false,
    }
}

/// The mode that the two variables select: full when the legacy switch is on or
/// the mode is spelled `full` in any case.
pub open spec fn selected_mode(
    legacy: Option<Seq<char>>,
    mode: Option<Seq<char>>,
) -> CapsuleOriginalMode {
    if is_truthy(legacy) {
        CapsuleOriginalMode::Full
    } else {
        match mode {
            Some(s) => if scan::lowered(s) == "full"@ {
                CapsuleOriginalMode::Full
            } else {
                CapsuleOriginalMode::Off
            },
            None => CapsuleOriginalMode::Off,
        }
    }
}

/// Whether a variable's value means yes.
pub fn env_truthy(value: Option<&str>) -> (r: bool)
    ensures
        r == is_truthy(text::opt_str(value)),
{
    match value {
        Some(s) => {
            let t = trim(s);
            same(&t, "1") || same(&t, "true") || same(&t, "TRUE") || same(&t, "yes") || same(
                &t,
                "YES",
            ) || same(&t, "on") || same(&t, "ON")
        },
        None => false,
    }
}

/// The positive number that a variable spells, else the default.
pub fn env_usize_positive(value: Option<&str>, default: usize) -> (r: usize)
    ensures
        r == positive_or(text::opt_str(value), default),
{
    match value {
        Some(s) => match parse_size(s) {
            Some(n) => if n > 0 {
                n
            } else {
                default
            },
            None => default,
        },
        None => default,
    }
}

/// How the raw text of a capsule's files is carried along, from the values of
/// `MARROW_CAPSULE_ORIGINAL_LEGACY` and `MARROW_CAPSULE_ORIGINAL_MODE`.
pub fn capsule_original_mode(legacy: Option<&str>, mode: Option<&str>) -> (r: CapsuleOriginalMode)
    ensures
        r == selected_mode(text::opt_str(legacy), text::opt_str(mode)),
{
    if env_truthy(legacy) {
        return CapsuleOriginalMode::Full;
    }
    match mode {
        Some(s) => if same(&lower_text(s), "full") {
            CapsuleOriginalMode::Full
        } else {
            CapsuleOriginalMode::Off
        },
        None => CapsuleOriginalMode::Off,
    }
}

/// Bytes that the raw text of a capsule may take, from the value of
/// `MARROW_CAPSULE_ORIGINAL_MAX_BYTES`.
pub fn capsule_original_text_max_bytes(value: Option<&str>) -> (r: Option<usize>)
    ensures
        r == positive_size(text::opt_str(value)),
{
    match value {
        Some(s) => match parse_size(s) {
            Some(n) => if n > 0 {
                Some(n)
            } else {
                None
            },
            None => None,
        },
        None => None,
    }
}

/// From how many bytes on a pivot's source is condensed.
pub fn capsule_max_pivot_bytes(value: Option<&str>) -> (r: usize)
    ensures
        r == positive_or(text::opt_str(value), MAX_PIVOT_BYTES),
{
    env_usize_positive(value, MAX_PIVOT_BYTES)
}

/// How many outbound neighbors a capsule loads at most.
pub fn capsule_max_outbound_neighbors(value: Option<&str>) -> (r: usize)
    ensures
        r == positive_or(text::opt_str(value), MAX_OUTBOUND),
{
    env_usize_positive(value, MAX_OUTBOUND)
}

/// How many inbound neighbors a capsule loads at most: never fewer than are shown.
pub fn capsule_max_inbound_neighbors_load(value: Option<&str>) -> (r: usize)
    ensures
        r >= MAX_INBOUND_CALLERS,
        positive_or(text::opt_str(value), MAX_INBOUND_LOAD) >= MAX_INBOUND_CALLERS ==> r
            == positive_or(text::opt_str(value), MAX_INBOUND_LOAD),
        positive_or(text::opt_str(value), MAX_INBOUND_LOAD) < MAX_INBOUND_CALLERS ==> r
            == MAX_INBOUND_CALLERS,
{
    let n = env_usize_positive(value, MAX_INBOUND_LOAD);
    if n < MAX_INBOUND_CALLERS {
        MAX_INBOUND_CALLERS
    } else {
        n
    }
}

/// How many rows an impact analysis gives at most.
pub fn impact_max_rows(value: Option<&str>) -> (r: usize)
    ensures
        r == positive_or(text::opt_str(value), IMPACT_MAX_ROWS),
{
    env_usize_positive(value, IMPACT_MAX_ROWS)
}

/// How many bytes the answer to a batch takes at most.
pub fn batch_max_bytes(value: Option<&str>) -> (r: usize)
    ensures
        r == positive_or(text::opt_str(value), BATCH_MAX_BYTES),
{
    env_usize_positive(value, BATCH_MAX_BYTES)
}

/// How many symbols a dependency graph visits at most.
pub fn dependency_graph_max_nodes(value: Option<&str>) -> (r: usize)
    ensures
        r == positive_or(text::opt_str(value), GRAPH_MAX_NODES),
{
    env_usize_positive(value, GRAPH_MAX_NODES)
}

/// How many bytes a dependency graph takes at most.
pub fn dependency_graph_max_bytes(value: Option<&str>) -> (r: usize)
    ensures
        r == positive_or(text::opt_str(value), GRAPH_MAX_BYTES),
{
    env_usize_positive(value, GRAPH_MAX_BYTES)
}

/// How many bytes a proof snapshot takes at most.
pub fn capsule_proof_max_bytes(value: Option<&str>) -> (r: usize)
    ensures
        r == positive_or(text::opt_str(value), PROOF_MAX_BYTES),
{
    env_usize_positive(value, PROOF_MAX_BYTES)
}

/// How many files a proof snapshot takes excerpts of at most.
pub fn capsule_proof_max_files(value: Option<&str>) -> (r: usize)
    ensures
        r == positive_or(text::opt_str(value), PROOF_MAX_FILES),
{
    env_usize_positive(value, PROOF_MAX_FILES)
}

fn borrowed(v: &Option<String>) -> (r: Option<&str>)
    ensures
        text::opt_str(r) == text::opt_text(*v),
{
    match v {
        Some(s) => Some(s.as_str()),
        None => None,
    }
}

impl Settings {
    /// Every limit is positive, and no fewer inbound neighbors are loaded than shown.
    pub open spec fn sound(self) -> bool {
        &&& self.proof_max_bytes > 0
        &&& self.proof_max_files > 0
        &&& self.max_pivot_bytes > 0
        &&& self.max_outbound > 0
        &&& self.max_inbound_load >= MAX_INBOUND_CALLERS
        &&& self.impact_max_rows > 0
        &&& self.batch_max_bytes > 0
        &&& self.graph_max_nodes > 0
        &&& self.graph_max_bytes > 0
        &&& (self.original_max_bytes matches Some(n) ==> n > 0)
    }

    /// The limits that an environment sets.
    pub fn from_environment(env: &Environment) -> (r: Settings)
        ensures
            r.sound(),
            r.original_mode == selected_mode(
                text::opt_text(env.original_legacy),
                text::opt_text(env.original_mode),
            ),
            r.original_max_bytes == positive_size(text::opt_text(env.original_max_bytes)),
            r.proof_max_bytes == positive_or(text::opt_text(env.proof_max_bytes), PROOF_MAX_BYTES),
            r.proof_max_files == positive_or(text::opt_text(env.proof_max_files), PROOF_MAX_FILES),
            r.max_pivot_bytes == positive_or(text::opt_text(env.max_pivot_bytes), MAX_PIVOT_BYTES),
            r.max_outbound == positive_or(text::opt_text(env.max_outbound), MAX_OUTBOUND),
            r.max_inbound_load >= positive_or(
                text::opt_text(env.max_inbound_load),
                MAX_INBOUND_LOAD,
            ),
            r.max_inbound_load == MAX_INBOUND_CALLERS || r.max_inbound_load == positive_or(
                text::opt_text(env.max_inbound_load),
                MAX_INBOUND_LOAD,
            ),
            r.impact_max_rows == positive_or(text::opt_text(env.impact_max_rows), IMPACT_MAX_ROWS),
            r.batch_max_bytes == positive_or(text::opt_text(env.batch_max_bytes), BATCH_MAX_BYTES),
            r.graph_max_nodes == positive_or(text::opt_text(env.graph_max_nodes), GRAPH_MAX_NODES),
            r.graph_max_bytes == positive_or(text::opt_text(env.graph_max_bytes), GRAPH_MAX_BYTES),
    {
        Settings {
            original_mode: capsule_original_mode(
                borrowed(&env.original_legacy),
                borrowed(&env.original_mode),
            ),
            original_max_bytes: capsule_original_text_max_bytes(
                borrowed(&env.original_max_bytes),
            ),
            proof_max_bytes: capsule_proof_max_bytes(borrowed(&env.proof_max_bytes)),
            proof_max_files: capsule_proof_max_files(borrowed(&env.proof_max_files)),
            max_pivot_bytes: capsule_max_pivot_bytes(borrowed(&env.max_pivot_bytes)),
            max_outbound: capsule_max_outbound_neighbors(borrowed(&env.max_outbound)),
            max_inbound_load: capsule_max_inbound_neighbors_load(borrowed(&env.max_inbound_load)),
            impact_max_rows: impact_max_rows(borrowed(&env.impact_max_rows)),
            batch_max_bytes: batch_max_bytes(borrowed(&env.batch_max_bytes)),
            graph_max_nodes: dependency_graph_max_nodes(borrowed(&env.graph_max_nodes)),
            graph_max_bytes: dependency_graph_max_bytes(borrowed(&env.graph_max_bytes)),
        }
    }

}

impl Default for Settings {
    /// The limits that hold when the environment sets none.
    fn default() -> (r: Self)
        ensures
            r.sound(),
            r.original_mode == CapsuleOriginalMode::Off,
            r.original_max_bytes is None,
            r.proof_max_bytes == PROOF_MAX_BYTES,
            r.proof_max_files == PROOF_MAX_FILES,
            r.max_pivot_bytes == MAX_PIVOT_BYTES,
            r.max_outbound == MAX_OUTBOUND,
            r.max_inbound_load == MAX_INBOUND_LOAD,
            r.impact_max_rows == IMPACT_MAX_ROWS,
            r.batch_max_bytes == BATCH_MAX_BYTES,
            r.graph_max_nodes == GRAPH_MAX_NODES,
            r.graph_max_bytes == GRAPH_MAX_BYTES,
    {
        Settings {
            original_mode: CapsuleOriginalMode::Off,
            original_max_bytes: None,
            proof_max_bytes: PROOF_MAX_BYTES,
            proof_max_files: PROOF_MAX_FILES,
            max_pivot_bytes: MAX_PIVOT_BYTES,
            max_outbound: MAX_OUTBOUND,
            max_inbound_load: MAX_INBOUND_LOAD,
            impact_max_rows: IMPACT_MAX_ROWS,
            batch_max_bytes: BATCH_MAX_BYTES,
            graph_max_nodes: GRAPH_MAX_NODES,
            graph_max_bytes: GRAPH_MAX_BYTES,
        }
    }
}

} // verus!
