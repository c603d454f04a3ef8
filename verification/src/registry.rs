//! The workspaces that are known, the state of their graph databases, and what may be
//! done to them.
use crate::paths;
use crate::paths::{equal_paths, file_name, is_within, join_path};
use crate::scan;
use crate::scan::{contains, to_lowercase};
use crate::store;
use crate::store::{
    as_int, as_texts, bind_one, bind_text_and_number, bind_two, change, count, failure_at, read_as,
    read_count, read_int, read_text, run_script, Answer, Cell, Kind, MarrowError, Param,
};
use crate::text;
use crate::text::{chars_of, same, text_between};
use vstd::prelude::*;
use vstd::string::*;
use vstd::utf8::*;

verus! {

// ── States ───────────────────────────────────────────────────────────────────

/// The state of a workspace's graph database.
#[derive(Clone, Copy, Debug, Eq, PartialEq, Structural)]
pub enum WorkspaceStatus {
    Available,
    Empty,
    MissingDb,
    InaccessibleDb,
    Locked,
    Corrupt,
    OutOfBoundsPending,
}

impl WorkspaceStatus {
    /// The name under which a state is stored.
    pub open spec fn name(self) -> Seq<char> {
        match self {
            WorkspaceStatus::Available => "available"@,
            WorkspaceStatus::Empty => "empty"@,
            WorkspaceStatus::MissingDb => "missing_db"@,
            WorkspaceStatus::InaccessibleDb => "inaccessible_db"@,
            WorkspaceStatus::Locked => "locked"@,
            WorkspaceStatus::Corrupt => "corrupt"@,
            WorkspaceStatus::OutOfBoundsPending => "out_of_bounds_pending"@,
        }
    }

    /// The state that a stored name stands for; an unknown one for a database that
    /// cannot be reached.
    pub open spec fn named(value: Seq<char>) -> WorkspaceStatus {
        if value == "available"@ {
            WorkspaceStatus::Available
        } else if value == "empty"@ {
            WorkspaceStatus::Empty
        } else if value == "missing_db"@ {
            WorkspaceStatus::MissingDb
        } else if value == "locked"@ {
            WorkspaceStatus::Locked
        } else if value == "corrupt"@ {
            WorkspaceStatus::Corrupt
        } else if value == "out_of_bounds_pending"@ {
            WorkspaceStatus::OutOfBoundsPending
        } else {
            WorkspaceStatus::InaccessibleDb
        }
    }

    /// The name under which a state is stored.
    pub fn as_str(&self) -> (r: &'static str)
        ensures
            r@ == self.name(),
    {
        match self {
            WorkspaceStatus::Available => "available",
            WorkspaceStatus::Empty => "empty",
            WorkspaceStatus::MissingDb => "missing_db",
            WorkspaceStatus::InaccessibleDb => "inaccessible_db",
            WorkspaceStatus::Locked => "locked",
            WorkspaceStatus::Corrupt => "corrupt",
            WorkspaceStatus::OutOfBoundsPending => "out_of_bounds_pending",
        }
    }

    /// The state that a stored name stands for.
    pub fn from_str(value: &str) -> (r: WorkspaceStatus)
        ensures
            r == WorkspaceStatus::named(value@),
    {
        if same(value, "available") {
            WorkspaceStatus::Available
        } else if same(value, "empty") {
            WorkspaceStatus::Empty
        } else if same(value, "missing_db") {
            WorkspaceStatus::MissingDb
        } else if same(value, "locked") {
            WorkspaceStatus::Locked
        } else if same(value, "corrupt") {
            WorkspaceStatus::Corrupt
        } else if same(value, "out_of_bounds_pending") {
            WorkspaceStatus::OutOfBoundsPending
        } else {
            WorkspaceStatus::InaccessibleDb
        }
    }

    /// Whether a database in this state can be read.
    pub open spec fn readable(self) -> bool {
        self == WorkspaceStatus::Available || self == WorkspaceStatus::Empty
    }

    /// Whether a database in this state can be read.
    pub fn is_readable(&self) -> (r: bool)
        ensures
            r == self.readable(),
    {
        *self == WorkspaceStatus::Available || *self == WorkspaceStatus::Empty
    }
}

/// A stored state is read back as the one that was stored.
pub proof fn law_status_names_read_back(status: WorkspaceStatus)
    ensures
        WorkspaceStatus::named(status.name()) == status,
{
    reveal_strlit("available");
    reveal_strlit("empty");
    reveal_strlit("missing_db");
    reveal_strlit("inaccessible_db");
    reveal_strlit("locked");
    reveal_strlit("corrupt");
    reveal_strlit("out_of_bounds_pending");
    assert("locked"@[0] == 'l' && "inaccessible_db"@[0] == 'i' && "corrupt"@[0] == 'c'
        && "empty"@[0] == 'e' && "missing_db"@[0] == 'm' && "available"@[0] == 'a'
        && "out_of_bounds_pending"@[0] == 'o');
}

/// The state of a database with this many symbols and files.
pub open spec fn filled(symbols: i64, files: i64) -> WorkspaceStatus {
    if symbols == 0 && files == 0 {
        WorkspaceStatus::Empty
    } else {
        WorkspaceStatus::Available
    }
}

/// The state of a database with this many symbols and files.
pub fn filled_status(symbols: i64, files: i64) -> (r: WorkspaceStatus)
    ensures
        r == filled(symbols, files),
{
    if symbols == 0 && files == 0 {
        WorkspaceStatus::Empty
    } else {
        WorkspaceStatus::Available
    }
}

/// The state that a failure, written in small letters, tells of.
pub open spec fn failure_status(lower: Seq<char>) -> WorkspaceStatus {
    if scan::holds(lower, "locked"@) || scan::holds(lower, "sqlite_busy"@) {
        WorkspaceStatus::Locked
    } else if scan::holds(lower, "malformed"@) || scan::holds(lower, "not a database"@) {
        WorkspaceStatus::Corrupt
    } else {
        WorkspaceStatus::InaccessibleDb
    }
}

/// The state that a failure, written in small letters, tells of.
pub fn classify_lowered(lower: &str) -> (r: WorkspaceStatus)
    ensures
        r == failure_status(lower@),
{
    if contains(lower, "locked") || contains(lower, "sqlite_busy") {
        WorkspaceStatus::Locked
    } else if contains(lower, "malformed") || contains(lower, "not a database") {
        WorkspaceStatus::Corrupt
    } else {
        WorkspaceStatus::InaccessibleDb
    }
}

/// The state that a failure tells of, and the failure itself.
pub fn classify_error(message: &str) -> (r: (WorkspaceStatus, Option<String>))
    ensures
        r.0 == failure_status(scan::lowercase(message@)),
        text::opt_text(r.1) == Some(message@),
{
    (classify_lowered(&to_lowercase(message)), Some(message.to_owned()))
}

/// What was seen of a graph database on disk: nothing there, or its symbols and files,
/// or why it could not be read.
pub enum DbProbe {
    Missing,
    Counted(i64, i64),
    Failed(String),
}

/// The state that a database shows.
pub open spec fn probed_status(probe: DbProbe) -> WorkspaceStatus {
    match probe {
        DbProbe::Missing => WorkspaceStatus::MissingDb,
        DbProbe::Counted(symbols, files) => filled(symbols, files),
        DbProbe::Failed(message) => failure_status(scan::lowercase(message@)),
    }
}

/// The failure that a database shows.
pub open spec fn probed_error(probe: DbProbe) -> Option<Seq<char>> {
    match probe {
        DbProbe::Failed(message) => Some(message@),
        _ => None,
    }
}

/// The state that a database shows, and its failure.
pub fn classify_workspace_db(probe: &DbProbe) -> (r: (WorkspaceStatus, Option<String>))
    ensures
        r.0 == probed_status(*probe),
        text::opt_text(r.1) == probed_error(*probe),
{
    match probe {
        DbProbe::Missing => (WorkspaceStatus::MissingDb, None),
        DbProbe::Counted(symbols, files) => (filled_status(*symbols, *files), None),
        DbProbe::Failed(message) => classify_error(message),
    }
}

/// What a database shows is its state: that it is missing, that it is empty when it holds
/// neither symbols nor files, that it is available when it holds either, and of one that
/// failed, that it is locked, corrupt or out of reach, by what its failure speaks of. The
/// failure itself is told, and of any other database none.
pub proof fn law_states_are_what_databases_show(probe: DbProbe)
    ensures
        probe is Missing ==> probed_status(probe) == WorkspaceStatus::MissingDb && probed_error(
            probe,
        ) is None,
        probe matches DbProbe::Counted(symbols, files) ==> (probed_status(probe)
            == WorkspaceStatus::Empty <==> symbols == 0 && files == 0) && (probed_status(probe)
            == WorkspaceStatus::Available <==> symbols != 0 || files != 0) && probed_error(probe)
            is None,
        probe matches DbProbe::Failed(message) ==> {
            let said = scan::lowercase(message@);
            let locked = scan::holds(said, "locked"@) || scan::holds(said, "sqlite_busy"@);
            let broken = scan::holds(said, "malformed"@) || scan::holds(said, "not a database"@);
            &&& probed_error(probe) == Some(message@)
            &&& probed_status(probe) == WorkspaceStatus::Locked <==> locked
            &&& probed_status(probe) == WorkspaceStatus::Corrupt <==> broken && !locked
            &&& probed_status(probe) == WorkspaceStatus::InaccessibleDb <==> !broken && !locked
        },
{
}

// ── Identifiers ──────────────────────────────────────────────────────────────

/// One step of the FNV-1a hash.
pub open spec fn fnv_step(hash: u64, byte: u8) -> u64 {
    (hash ^ (byte as u64)).wrapping_mul(1_099_511_628_211u64)
}

/// The FNV-1a hash of some bytes.
pub open spec fn fnv(bytes: Seq<u8>) -> u64
    decreases bytes.len(),
{
    if bytes.len() == 0 {
        14_695_981_039_346_656_037u64
    } else {
        fnv_step(fnv(bytes.drop_last()), bytes.last())
    }
}

/// The character of a hexadecimal digit.
pub open spec fn hex_digit(d: int) -> char {
    if d < 10 {
        (48 + d) as char
    } else {
        (87 + d) as char
    }
}

/// The last `width` hexadecimal digits of a number.
pub open spec fn hex(n: nat, width: nat) -> Seq<char>
    decreases width,
{
    if width == 0 {
        Seq::empty()
    } else {
        hex(n / 16, (width - 1) as nat).push(hex_digit((n % 16) as int))
    }
}

proof fn lemma_hex_len(n: nat, width: nat)
    ensures
        hex(n, width).len() == width,
    decreases width,
{
    if width > 0 {
        lemma_hex_len(n / 16, (width - 1) as nat);
    }
}

fn hex_text(n: u64, width: usize) -> (r: String)
    ensures
        r@ == hex(n as nat, width as nat),
    decreases width,
{
    if width == 0 {
        return String::new();
    }
    let mut out = hex_text(n / 16, width - 1);
    let d: u8 = (n % 16) as u8;
    let c: char = if d < 10 {
        (48 + d) as char
    } else {
        (87 + d) as char
    };
    out.push(c);
    out
}

/// The FNV-1a hash of some bytes, as sixteen hexadecimal digits.
pub fn fnv_hex(bytes: &[u8]) -> (r: String)
    ensures
        r@ == hex(fnv(bytes@) as nat, 16),
        r@.len() == 16,
{
    let mut hash: u64 = 14_695_981_039_346_656_037;
    let mut i: usize = 0;
    assert(bytes@.take(0) =~= Seq::empty());
    while i < bytes.len()
        invariant
            i <= bytes.len(),
            hash == fnv(bytes@.take(i as int)),
        decreases bytes.len() - i,
    {
        assert(bytes@.take(i + 1).drop_last() =~= bytes@.take(i as int));
        hash = (hash ^ (bytes[i] as u64)).wrapping_mul(1_099_511_628_211);
        i += 1;
    }
    assert(bytes@.take(bytes@.len() as int) =~= bytes@);
    proof {
        lemma_hex_len(hash as nat, 16);
    }
    hex_text(hash, 16)
}

/// A character that may stand in an identifier, or a dash in its place.
pub open spec fn plain_char(c: char) -> char {
    if scan::is_ascii_alnum(c) || c == '-' || c == '_' {
        c
    } else {
        '-'
    }
}

/// A name with dashes for all but letters, digits, dashes and underscores.
pub open spec fn plain_name(name: Seq<char>) -> Seq<char> {
    name.map_values(|c: char| plain_char(c))
}

fn clean_name(name: &str) -> (r: String)
    ensures
        r@ == plain_name(name@),
{
    let chars = chars_of(name);
    let mut out = String::new();
    let mut i: usize = 0;
    while i < chars.len()
        invariant
            i <= chars.len(),
            chars@ == name@,
            out@ == plain_name(name@).take(i as int),
        decreases chars.len() - i,
    {
        let c: char = chars[i];
        let keep = ('a' <= c && c <= 'z') || ('A' <= c && c <= 'Z') || ('0' <= c && c <= '9') || c
            == '-' || c == '_';
        let plain: char = if keep {
            c
        } else {
            '-'
        };
        out.push(plain);
        assert(plain_name(name@).take(i as int).push(plain_char(name@[i as int]))
            =~= plain_name(name@).take(i + 1));
        i += 1;
    }
    assert(plain_name(name@).take(name@.len() as int) =~= plain_name(name@));
    out
}

/// The identifier of the workspace at a root: its directory's name and the first half
/// of the hash of the whole path.
pub open spec fn workspace_id(root: Seq<char>) -> Seq<char> {
    let base = match paths::last_name(root) {
        Some(name) => name,
        None => "workspace"@,
    };
    plain_name(base) + "-"@ + hex(fnv(encode_utf8(root)) as nat, 16).take(8)
}

/// The identifier of the workspace at a root.
pub fn workspace_id_for_root(root: &str) -> (r: String)
    ensures
        r@ == workspace_id(root@),
{
    let base = match file_name(root) {
        Some(name) => name,
        None => "workspace".to_owned(),
    };
    let hash = fnv_hex(root.as_bytes());
    let digits = chars_of(&hash);
    let half = text_between(&digits, 0, 8);
    assert(half@ =~= hash@.take(8));
    clean_name(&base).concat("-").concat(&half)
}

/// A workspace is identified by the name of its directory, with dashes for what is neither
/// letter, digit, dash nor underscore, and by the front half of the hash of its whole path:
/// the path's bytes taken in one by one, each by an exclusive or and a product.
pub proof fn law_workspace_ids_are_name_and_hash(root: Seq<char>)
    ensures
        workspace_id(root) == (match paths::last_name(root) {
            Some(name) => name,
            None => "workspace"@,
        }).map_values(
            |c: char|
                if ('a' <= c <= 'z') || ('A' <= c <= 'Z') || ('0' <= c <= '9') || c == '-' || c
                    == '_' {
                    c
                } else {
                    '-'
                },
        ) + "-"@ + hex(fnv(encode_utf8(root)) as nat, 16).take(8),
        fnv(encode_utf8(root)) == encode_utf8(root).fold_left(
            14_695_981_039_346_656_037u64,
            |hash: u64, byte: u8| (hash ^ (byte as u64)).wrapping_mul(1_099_511_628_211u64),
        ),
{
    let base = match paths::last_name(root) {
        Some(name) => name,
        None => "workspace"@,
    };
    assert(plain_name(base) =~= base.map_values(
        |c: char|
            if ('a' <= c <= 'z') || ('A' <= c <= 'Z') || ('0' <= c <= '9') || c == '-' || c
                == '_' {
                c
            } else {
                '-'
            },
    ));
    let step = |hash: u64, byte: u8| (hash ^ (byte as u64)).wrapping_mul(1_099_511_628_211u64);
    lemma_fnv(encode_utf8(root), step);
}

proof fn lemma_fnv(bytes: Seq<u8>, step: spec_fn(u64, u8) -> u64)
    requires
        forall|hash: u64, byte: u8| #[trigger] step(hash, byte) == fnv_step(hash, byte),
    ensures
        fnv(bytes) == bytes.fold_left(14_695_981_039_346_656_037u64, step),
    decreases bytes.len(),
{
    reveal(Seq::fold_left);
    if bytes.len() > 0 {
        lemma_fnv(bytes.drop_last(), step);
    }
}

/// Hexadecimal digits are those of the number, the last one behind those of its sixteenth,
/// in small letters, as many as are asked for.
pub proof fn law_hashes_are_written_in_hexadecimal(n: nat, width: nat, d: nat)
    requires
        d < 16,
    ensures
        hex(n, width).len() == width,
        hex(n * 16 + d, width + 1) == hex(n, width).push(
            if d < 10 {
                (48 + d) as char
            } else {
                (87 + d) as char
            },
        ),
{
    lemma_hex_len(n, width);
    assert((n * 16 + d) / 16 == n && (n * 16 + d) % 16 == d);
    assert((width + 1 - 1) as nat == width);
}

/// A workspace identifier ends with a dash and eight characters, in front of which no
/// character is but letters, digits, dashes and underscores.
pub proof fn law_workspace_ids_are_plain(root: Seq<char>)
    ensures
        workspace_id(root).len() >= 9,
        workspace_id(root)[workspace_id(root).len() - 9] == '-',
        forall|i: int|
            0 <= i < workspace_id(root).len() - 8 ==> #[trigger] plain_char(workspace_id(root)[i])
                == workspace_id(root)[i],
{
    let base = match paths::last_name(root) {
        Some(name) => name,
        None => "workspace"@,
    };
    let digits = hex(fnv(encode_utf8(root)) as nat, 16);
    lemma_hex_len(fnv(encode_utf8(root)) as nat, 16);
    reveal_strlit("-");
    let id = workspace_id(root);
    assert(id.len() == base.len() + 9);
    assert forall|i: int| 0 <= i < id.len() - 8 implies #[trigger] plain_char(id[i]) == id[i] by {
        if i < base.len() {
            assert(id[i] == plain_char(base[i]));
        }
    }
}

// ── Entries ──────────────────────────────────────────────────────────────────

/// What may be done to a workspace that is no longer wanted.
#[derive(Clone, Copy, Debug, Eq, PartialEq, Structural)]
pub enum CleanupKind {
    Unregister,
    ClearIndex,
    DeleteDb,
}

/// A workspace as it is shown.
#[derive(Clone, Debug, Eq, PartialEq)]
pub struct WorkspaceEntry {
    pub workspace_id: String,
    pub workspace_root: String,
    pub graph_db_path: String,
    pub display_name: Option<String>,
    pub status: WorkspaceStatus,
    pub registered_at: u64,
    pub last_seen_at: u64,
    pub error: Option<String>,
}

/// A workspace without its representation.
pub ghost struct WorkspaceText {
    pub id: Seq<char>,
    pub root: Seq<char>,
    pub db: Seq<char>,
    pub name: Option<Seq<char>>,
    pub status: WorkspaceStatus,
    pub registered_at: int,
    pub last_seen_at: int,
    pub error: Option<Seq<char>>,
}

impl View for WorkspaceEntry {
    type V = WorkspaceText;

    open spec fn view(&self) -> WorkspaceText {
        WorkspaceText {
            id: self.workspace_id@,
            root: self.workspace_root@,
            db: self.graph_db_path@,
            name: text::opt_text(self.display_name),
            status: self.status,
            registered_at: self.registered_at as int,
            last_seen_at: self.last_seen_at as int,
            error: text::opt_text(self.error),
        }
    }
}

/// The views of a list of workspaces.
pub open spec fn entry_texts(v: Seq<WorkspaceEntry>) -> Seq<WorkspaceText> {
    Seq::new(v.len(), |i: int| v[i]@)
}

/// A stored point in time; none lies before the epoch.
pub open spec fn moment(stored: i64) -> int {
    if stored < 0 {
        0
    } else {
        stored as int
    }
}

fn read_moment(stored: i64) -> (r: u64)
    ensures
        r == moment(stored),
{
    if stored < 0 {
        0
    } else {
        stored as u64
    }
}

/// The text of a cell that may also hold nothing; none when it holds something else.
pub open spec fn opt_text_at(row: Seq<Cell>, i: int) -> Option<Option<Seq<char>>> {
    if 0 <= i < row.len() {
        match row[i] {
            Cell::Null => Some(None),
            Cell::Text(s) => Some(Some(s@)),
            _ => None,
        }
    } else {
        None
    }
}

fn read_opt_text(row: &Vec<Cell>, i: usize) -> (r: Option<Option<String>>)
    ensures
        match r {
            Some(v) => opt_text_at(row@, i as int) == Some(text::opt_text(v)),
            None => opt_text_at(row@, i as int) is None,
        },
{
    if i < row.len() {
        match &row[i] {
            Cell::Null => Some(None),
            Cell::Text(s) => Some(Some(s.clone())),
            _ => None,
        }
    } else {
        None
    }
}

/// The workspace that a row of the register holds.
pub open spec fn stored_entry(row: Seq<Cell>) -> Option<WorkspaceText> {
    match (
        store::text_at(row, 0),
        store::text_at(row, 1),
        store::text_at(row, 2),
        opt_text_at(row, 3),
        store::text_at(row, 4),
        store::int_at(row, 5),
        store::int_at(row, 6),
    ) {
        (
            Some(id),
            Some(root),
            Some(db),
            Some(name),
            Some(status),
            Some(registered_at),
            Some(last_seen_at),
        ) => Some(
            WorkspaceText {
                id,
                root,
                db,
                name,
                status: WorkspaceStatus::named(status),
                registered_at: moment(registered_at),
                last_seen_at: moment(last_seen_at),
                error: None,
            },
        ),
        _ => None,
    }
}

/// What the columns of the register are read as.
pub open spec fn entry_kinds() -> Seq<Kind> {
    seq![
        Kind::Text,
        Kind::Text,
        Kind::Text,
        Kind::MaybeText,
        Kind::Text,
        Kind::Int,
        Kind::Int,
    ]
}

fn as_entry() -> (r: Vec<Kind>)
    ensures
        r@ == entry_kinds(),
{
    let kinds = vec![
        Kind::Text,
        Kind::Text,
        Kind::Text,
        Kind::MaybeText,
        Kind::Text,
        Kind::Int,
        Kind::Int,
    ];
    assert(kinds@ =~= entry_kinds());
    kinds
}

proof fn lemma_fitting_rows_are_entries(row: Seq<Cell>)
    requires
        store::fits(row, entry_kinds()),
    ensures
        stored_entry(row) is Some,
{
    assert(store::suits(row[0], entry_kinds()[0]));
    assert(store::suits(row[1], entry_kinds()[1]));
    assert(store::suits(row[2], entry_kinds()[2]));
    assert(store::suits(row[3], entry_kinds()[3]));
    assert(store::suits(row[4], entry_kinds()[4]));
    assert(store::suits(row[5], entry_kinds()[5]));
    assert(store::suits(row[6], entry_kinds()[6]));
}

/// The view of an optional workspace.
pub open spec fn opt_entry(v: Option<WorkspaceEntry>) -> Option<WorkspaceText> {
    match v {
        Some(e) => Some(e@),
        None => None,
    }
}

/// The workspace that a row of the register holds.
pub fn read_entry(row: &Vec<Cell>) -> (r: Option<WorkspaceEntry>)
    ensures
        opt_entry(r) == stored_entry(row@),
{
    match (
        read_text(row, 0),
        read_text(row, 1),
        read_text(row, 2),
        read_opt_text(row, 3),
        read_text(row, 4),
        read_int(row, 5),
        read_int(row, 6),
    ) {
        (
            Some(workspace_id),
            Some(workspace_root),
            Some(graph_db_path),
            Some(display_name),
            Some(status),
            Some(registered_at),
            Some(last_seen_at),
        ) => Some(
            WorkspaceEntry {
                workspace_id,
                workspace_root,
                graph_db_path,
                display_name,
                status: WorkspaceStatus::from_str(&status),
                registered_at: read_moment(registered_at),
                last_seen_at: read_moment(last_seen_at),
                error: None,
            },
        ),
        _ => None,
    }
}

/// Whether every row of an answer can be read as a workspace.
pub open spec fn all_entries(answer: Seq<Result<Vec<Cell>, rusqlite::Error>>) -> bool {
    forall|i: int|
        0 <= i < answer.len() ==> (#[trigger] answer[i] matches Ok(row) && stored_entry(row@)
            is Some)
}

/// The workspaces of an answer.
pub open spec fn entries_of(answer: Seq<Result<Vec<Cell>, rusqlite::Error>>) -> Seq<WorkspaceText> {
    Seq::new(answer.len(), |i: int| stored_entry(answer[i]->Ok_0@)->Some_0)
}

/// The workspaces of an answer, or why one of them cannot be read.
pub(crate) fn read_entries(answer: Answer) -> (r: Result<Vec<WorkspaceEntry>, MarrowError>)
    requires
        store::all_fit(answer@, entry_kinds()),
    ensures
        r is Ok <==> all_entries(answer@),
        r matches Ok(v) ==> entry_texts(v@) == entries_of(answer@),
        r matches Err(e) ==> exists|i: int|
            0 <= i < answer.len() && #[trigger] store::is_failure(e, answer@[i]),
{
    let mut out: Vec<WorkspaceEntry> = Vec::new();
    let mut i: usize = 0;
    while i < answer.len()
        invariant
            i <= answer.len(),
            store::all_fit(answer@, entry_kinds()),
            out.len() == i,
            forall|k: int|
                0 <= k < i ==> (#[trigger] answer@[k] matches Ok(row) && stored_entry(row@) == Some(
                    out@[k]@,
                )),
        decreases answer.len() - i,
    {
        let entry = match &answer[i] {
            Ok(row) => read_entry(row),
            Err(_) => None,
        };
        match entry {
            Some(entry) => {
                out.push(entry);
            },
            None => {
                let ghost whole = answer@;
                proof {
                    if whole[i as int] is Ok {
                        lemma_fitting_rows_are_entries(whole[i as int]->Ok_0@);
                    }
                }
                let e = failure_at(answer, i);
                assert(store::is_failure(e, whole[i as int]));
                return Err(e);
            },
        }
        i += 1;
    }
    assert(entry_texts(out@) =~= entries_of(answer@));
    Ok(out)
}

// ── The register ─────────────────────────────────────────────────────────────

/// The directory that a workspace keeps its index in.
pub const INDEX_DIR: &'static str = ".marrow";

/// The name of a workspace's graph database.
pub const GRAPH_DB: &'static str = "graph.db";

pub const VERSION_SQL: &'static str = "PRAGMA user_version";

pub const SCHEMA_SQL: &'static str =
    "CREATE TABLE IF NOT EXISTS workspaces (workspace_id TEXT PRIMARY KEY, workspace_root TEXT NOT NULL UNIQUE, graph_db_path TEXT NOT NULL UNIQUE, display_name TEXT, status TEXT NOT NULL DEFAULT 'missing_db', registered_at INTEGER NOT NULL, last_seen_at INTEGER NOT NULL); CREATE INDEX IF NOT EXISTS idx_workspaces_last_seen ON workspaces(last_seen_at DESC); PRAGMA user_version = 1;";

pub const LIST_SQL: &'static str =
    "SELECT workspace_id, workspace_root, graph_db_path, display_name, status, registered_at, last_seen_at FROM workspaces ORDER BY COALESCE(display_name, workspace_root) COLLATE NOCASE ASC";

pub const FIND_SQL: &'static str =
    "SELECT workspace_id, workspace_root, graph_db_path, display_name, status, registered_at, last_seen_at FROM workspaces WHERE workspace_id = ?1";

pub const REGISTERED_SQL: &'static str =
    "SELECT registered_at FROM workspaces WHERE workspace_id = ?1";

pub const REGISTER_SQL: &'static str =
    "INSERT INTO workspaces (workspace_id, workspace_root, graph_db_path, display_name, status, registered_at, last_seen_at) VALUES (?1, ?2, ?3, ?4, ?5, ?6, ?7) ON CONFLICT(workspace_id) DO UPDATE SET workspace_root = excluded.workspace_root, graph_db_path = excluded.graph_db_path, display_name = COALESCE(excluded.display_name, workspaces.display_name), status = excluded.status, last_seen_at = excluded.last_seen_at";

pub const UNREGISTER_SQL: &'static str = "DELETE FROM workspaces WHERE workspace_id = ?1";

pub const SET_STATUS_SQL: &'static str =
    "UPDATE workspaces SET status = ?1 WHERE workspace_id = ?2";

/// The directory of a workspace's index.
pub open spec fn index_dir(root: Seq<char>) -> Seq<char> {
    paths::joined_path(root, INDEX_DIR@)
}

/// The path of a workspace's graph database.
pub open spec fn graph_db(root: Seq<char>) -> Seq<char> {
    paths::joined_path(index_dir(root), GRAPH_DB@)
}

/// The path of a workspace's graph database.
pub fn graph_db_path(root: &str) -> (r: String)
    ensures
        r@ == graph_db(root@),
{
    join_path(&join_path(root, INDEX_DIR), GRAPH_DB)
}

/// The path of the register below a home directory.
pub fn default_registry_path(home: Option<&str>) -> (r: String)
    ensures
        r@ == paths::joined_path(
            index_dir(
                match text::opt_str(home) {
                    Some(h) => h,
                    None => "/tmp"@,
                },
            ),
            "registry.db"@,
        ),
{
    let base: &str = match home {
        Some(h) => h,
        None => "/tmp",
    };
    join_path(&join_path(base, INDEX_DIR), "registry.db")
}

/// What is said of a workspace that is not in the register.
pub open spec fn unknown_workspace(id: Seq<char>) -> Seq<char> {
    "workspace '"@ + id + "' is not registered"@
}

/// What is said of a workspace that is not in the register.
pub fn not_registered(workspace_id: &str) -> (r: String)
    ensures
        r@ == unknown_workspace(workspace_id@),
{
    "workspace '".to_owned().concat(workspace_id).concat("' is not registered")
}

/// What is said of a workspace that lies where it may not.
pub open spec fn boundary_refusal(root: Seq<char>, trusted: Seq<char>) -> Seq<char> {
    "workspace '"@ + root + "' is outside the trusted workspace boundary '"@ + trusted + "'"@
}

/// Whether a root lies outside the boundary it has to keep to.
pub open spec fn crosses(root: Seq<char>, trusted: Option<Seq<char>>, confirmed: bool) -> bool {
    !confirmed && (trusted matches Some(base) && !paths::lies_within(root, base))
}

/// Whether a workspace may be registered: inside the boundary, or where the user said
/// so.
pub fn check_boundary(root: &str, trusted: Option<&str>, user_confirmed: bool) -> (r: Result<
    (),
    String,
>)
    ensures
        r is Err <==> crosses(root@, text::opt_str(trusted), user_confirmed),
        r matches Err(m) ==> m@ == boundary_refusal(root@, text::opt_str(trusted)->Some_0),
{
    match trusted {
        Some(base) => if !user_confirmed && !is_within(root, base) {
            Err(
                "workspace '".to_owned().concat(root).concat(
                    "' is outside the trusted workspace boundary '",
                ).concat(base).concat("'"),
            )
        } else {
            Ok(())
        },
        None => Ok(()),
    }
}

/// What is stored of a workspace.
pub open spec fn registration(
    root: Seq<char>,
    name: Option<Seq<char>>,
    status: WorkspaceStatus,
    registered_at: i64,
    now: u64,
) -> Seq<store::Bound> {
    seq![
        store::Bound::Text(workspace_id(root)),
        store::Bound::Text(root),
        store::Bound::Text(graph_db(root)),
        match name {
            Some(n) => store::Bound::Text(n),
            None => store::Bound::Null,
        },
        store::Bound::Text(status.name()),
        store::Bound::Int(registered_at as int),
        store::Bound::Int(now as i64 as int),
    ]
}

/// When a workspace was first registered, by what the register says of it.
pub open spec fn first_registered(
    answer: Seq<Result<Vec<Cell>, rusqlite::Error>>,
    now: u64,
) -> Option<i64> {
    if answer.len() == 0 {
        Some(now as i64)
    } else {
        store::first_int(answer)
    }
}

/// Whether a register could lead to this entry for a workspace: it is stored as it is
/// shown, and keeps the time of its first registration.
pub open spec fn could_register(
    db: rusqlite::Connection,
    root: Seq<char>,
    name: Option<Seq<char>>,
    probe: DbProbe,
    now: u64,
    entry: WorkspaceText,
) -> bool {
    exists|answer: Seq<Result<Vec<Cell>, rusqlite::Error>>, changed: int|
        {
            &&& #[trigger] store::could_read(
                db,
                REGISTERED_SQL@,
                store::one_int(),
                store::one_text(workspace_id(root)),
                answer,
            )
            &&& first_registered(answer, now) is Some
            &&& #[trigger] store::could_change(
                db,
                REGISTER_SQL@,
                registration(
                    root,
                    name,
                    probed_status(probe),
                    first_registered(answer, now)->Some_0,
                    now,
                ),
                changed,
            )
            &&& entry == (WorkspaceText {
                id: workspace_id(root),
                root,
                db: graph_db(root),
                name,
                status: probed_status(probe),
                registered_at: moment(first_registered(answer, now)->Some_0),
                last_seen_at: now as int,
                error: None,
            })
        }
}

/// Whether registering a workspace could fail so: the register refuses to say when it
/// was first registered, cannot be read on that, or refuses the entry.
pub open spec fn could_not_register(
    db: rusqlite::Connection,
    root: Seq<char>,
    name: Option<Seq<char>>,
    probe: DbProbe,
    now: u64,
    e: MarrowError,
) -> bool {
    let asked = store::one_text(workspace_id(root));
    ||| e matches MarrowError::Store(why) && store::could_decline(
        db,
        REGISTERED_SQL@,
        store::one_int(),
        asked,
        why,
    )
    ||| exists|answer: Seq<Result<Vec<Cell>, rusqlite::Error>>|
        {
            &&& #[trigger] store::could_read(
                db,
                REGISTERED_SQL@,
                store::one_int(),
                asked,
                answer,
            )
            &&& match first_registered(answer, now) {
                None => store::is_failure(e, answer[0]),
                Some(at) => e matches MarrowError::Store(why) && store::could_reject(
                    db,
                    REGISTER_SQL@,
                    registration(root, name, probed_status(probe), at, now),
                    why,
                ),
            }
        }
}

/// What is shown of a workspace: what its database shows now, or the stored state
/// where the database cannot be reached.
pub open spec fn seen_entry(stored: WorkspaceText, probe: DbProbe) -> WorkspaceText {
    WorkspaceText {
        status: if probed_status(probe) == WorkspaceStatus::InaccessibleDb {
            stored.status
        } else {
            probed_status(probe)
        },
        error: probed_error(probe),
        ..stored
    }
}

/// What is registered is the workspace at the root: by its identifier, with the database
/// that it keeps below that root, the name that it is given, the state that the database
/// shows, and this moment as the last one it was seen at. The moment of its first
/// registration is kept where there is one. What is stored is what is shown.
pub proof fn law_registrations_store_what_they_show(
    db: rusqlite::Connection,
    root: Seq<char>,
    name: Option<Seq<char>>,
    probe: DbProbe,
    now: u64,
    entry: WorkspaceText,
)
    requires
        could_register(db, root, name, probe, now, entry),
    ensures
        entry.id == workspace_id(root),
        entry.root == root,
        entry.db == paths::joined_path(paths::joined_path(root, ".marrow"@), "graph.db"@),
        entry.name == name,
        entry.status == probed_status(probe),
        entry.last_seen_at == now,
        entry.error is None,
        exists|bound: Seq<store::Bound>, changed: int|
            {
                &&& #[trigger] store::could_change(db, REGISTER_SQL@, bound, changed)
                &&& bound.len() == 7
                &&& bound[0] == store::Bound::Text(entry.id)
                &&& bound[1] == store::Bound::Text(entry.root)
                &&& bound[2] == store::Bound::Text(entry.db)
                &&& bound[3] == (match name {
                    Some(n) => store::Bound::Text(n),
                    None => store::Bound::Null,
                })
                &&& bound[4] == store::Bound::Text(entry.status.name())
                &&& bound[5] matches store::Bound::Int(first) && entry.registered_at == (
                if first < 0 {
                    0
                } else {
                    first
                })
                &&& bound[6] == store::Bound::Int(now as i64 as int)
            },
{
    let (answer, changed) = choose|
        answer: Seq<Result<Vec<Cell>, rusqlite::Error>>,
        changed: int,
    |
        {
            &&& #[trigger] store::could_read(
                db,
                REGISTERED_SQL@,
                store::one_int(),
                store::one_text(workspace_id(root)),
                answer,
            )
            &&& first_registered(answer, now) is Some
            &&& #[trigger] store::could_change(
                db,
                REGISTER_SQL@,
                registration(
                    root,
                    name,
                    probed_status(probe),
                    first_registered(answer, now)->Some_0,
                    now,
                ),
                changed,
            )
            &&& entry == (WorkspaceText {
                id: workspace_id(root),
                root,
                db: graph_db(root),
                name,
                status: probed_status(probe),
                registered_at: moment(first_registered(answer, now)->Some_0),
                last_seen_at: now as int,
                error: None,
            })
        };
    let first = first_registered(answer, now)->Some_0;
    let bound = registration(root, name, probed_status(probe), first, now);
    assert(store::could_change(db, REGISTER_SQL@, bound, changed));
    assert(bound[5] == store::Bound::Int(first as int));
}

/// A workspace is shown as it was stored, but for its state and its failure: these are
/// what its database shows now. Only where that cannot be reached does the stored state
/// stay.
pub proof fn law_workspaces_are_shown_as_stored(stored: WorkspaceText, probe: DbProbe)
    ensures
        ({
            let shown = seen_entry(stored, probe);
            &&& shown.id == stored.id
            &&& shown.root == stored.root
            &&& shown.db == stored.db
            &&& shown.name == stored.name
            &&& shown.registered_at == stored.registered_at
            &&& shown.last_seen_at == stored.last_seen_at
            &&& shown.error == probed_error(probe)
            &&& probed_status(probe) != WorkspaceStatus::InaccessibleDb ==> shown.status
                == probed_status(probe)
            &&& probed_status(probe) == WorkspaceStatus::InaccessibleDb ==> shown.status
                == stored.status
        }),
{
}

/// A row of the register is read column by column: the identifier, the root, the database,
/// the name where there is one, the state, and the moments it was registered and last seen
/// at.
pub proof fn law_stored_workspaces_are_read_by_column(row: Seq<Cell>, entry: WorkspaceText)
    requires
        stored_entry(row) == Some(entry),
    ensures
        row.len() >= 7,
        row[0] matches Cell::Text(s) && s@ == entry.id,
        row[1] matches Cell::Text(s) && s@ == entry.root,
        row[2] matches Cell::Text(s) && s@ == entry.db,
        match row[3] {
            Cell::Null => entry.name is None,
            Cell::Text(s) => entry.name == Some(s@),
            _ => false,
        },
        row[4] matches Cell::Text(s) && entry.status == WorkspaceStatus::named(s@),
        row[5] matches Cell::Int(n) && entry.registered_at == (if n < 0 {
            0
        } else {
            n as int
        }),
        row[6] matches Cell::Int(n) && entry.last_seen_at == (if n < 0 {
            0
        } else {
            n as int
        }),
        entry.error is None,
{
}

/// The known workspaces.
pub struct Registry {
    conn: rusqlite::Connection,
}

/// Whether a database could tell this version of its layout.
pub open spec fn could_have_version(db: rusqlite::Connection, version: i64) -> bool {
    store::could_count(db, VERSION_SQL@, Seq::empty(), version)
}

/// Whether laying the register's table out could fail so: the version cannot be read,
/// or one that is too old is there and the layout is refused.
pub open spec fn could_not_migrate(db: rusqlite::Connection, e: MarrowError) -> bool {
    ||| store::could_not_count(db, VERSION_SQL@, Seq::empty(), e)
    ||| exists|version: i64|
        {
            &&& #[trigger] could_have_version(db, version)
            &&& version < 1
            &&& e matches MarrowError::Store(why)
            &&& store::could_script(db, SCHEMA_SQL@, Some(why))
        }
}

/// Whether listing the register could fail so: the database refuses it, or a row cannot
/// be read as a workspace.
pub open spec fn could_not_list(db: rusqlite::Connection, e: MarrowError) -> bool {
    store::could_not_read(db, LIST_SQL@, entry_kinds(), Seq::empty(), e)
}

/// Whether looking for a workspace could fail so: the database refuses it, or the row
/// cannot be read as a workspace.
pub open spec fn could_not_find(
    db: rusqlite::Connection,
    workspace_id: Seq<char>,
    e: MarrowError,
) -> bool {
    ||| e matches MarrowError::Store(why) && store::could_decline(
        db,
        FIND_SQL@,
        entry_kinds(),
        store::one_text(workspace_id),
        why,
    )
    ||| exists|answer: Seq<Result<Vec<Cell>, rusqlite::Error>>|
        {
            &&& #[trigger] store::could_read(
                db,
                FIND_SQL@,
                entry_kinds(),
                store::one_text(workspace_id),
                answer,
            )
            &&& answer.len() > 0
            &&& store::is_failure(e, answer[0])
        }
}

impl Registry {
    /// The database that the register is kept in.
    pub closed spec fn database(&self) -> rusqlite::Connection {
        self.conn
    }

    /// The register in an open database.
    pub fn new(conn: rusqlite::Connection) -> (r: Registry)
        ensures
            r.database() == conn,
    {
        Registry { conn }
    }

    /// The database of the register.
    pub fn connection(&self) -> (r: &rusqlite::Connection)
        ensures
            *r == self.database(),
    {
        &self.conn
    }

    /// Lays the register's table out where the database has none yet, and says whether
    /// it did.
    pub fn migrate(&self) -> (r: Result<bool, MarrowError>)
        ensures
            match r {
                Ok(ran) => exists|version: i64|
                    {
                        &&& #[trigger] could_have_version(self.database(), version)
                        &&& ran == (version < 1)
                        &&& ran ==> store::could_script(self.database(), SCHEMA_SQL@, None)
                    },
                Err(e) => could_not_migrate(self.database(), e),
            },
    {
        let params: Vec<Param> = Vec::new();
        assert(store::bounds(params@) =~= Seq::empty());
        match count(&self.conn, VERSION_SQL, params) {
            Ok(version) => {
                assert(could_have_version(self.database(), version));
                if version < 1 {
                    match run_script(&self.conn, SCHEMA_SQL) {
                        Ok(_) => Ok(true),
                        Err(e) => Err(MarrowError::Store(e)),
                    }
                } else {
                    Ok(false)
                }
            },
            Err(e) => Err(e),
        }
    }

    /// Registers a workspace, as [`Registry::register_workspace_with_boundary`] does
    /// where there is no boundary.
    pub fn register_workspace(
        &self,
        root: &str,
        display_name: Option<&str>,
        probe: &DbProbe,
        now: u64,
    ) -> (r: Result<WorkspaceEntry, MarrowError>)
        ensures
            match r {
                Ok(entry) => could_register(
                    self.database(),
                    root@,
                    text::opt_str(display_name),
                    *probe,
                    now,
                    entry@,
                ),
                Err(e) => could_not_register(
                    self.database(),
                    root@,
                    text::opt_str(display_name),
                    *probe,
                    now,
                    e,
                ),
            },
    {
        self.register_workspace_with_boundary(root, None, false, display_name, probe, now)
    }

    /// Registers the workspace at a root, or refreshes its entry. `probe` is what its
    /// graph database shows.
    pub fn register_workspace_with_boundary(
        &self,
        root: &str,
        trusted_root: Option<&str>,
        user_confirmed: bool,
        display_name: Option<&str>,
        probe: &DbProbe,
        now: u64,
    ) -> (r: Result<WorkspaceEntry, MarrowError>)
        ensures
            crosses(root@, text::opt_str(trusted_root), user_confirmed) ==> (r matches Err(
                MarrowError::Message(m),
            ) && m@ == boundary_refusal(root@, text::opt_str(trusted_root)->Some_0)),
            !crosses(root@, text::opt_str(trusted_root), user_confirmed) ==> match r {
                Ok(entry) => could_register(
                    self.database(),
                    root@,
                    text::opt_str(display_name),
                    *probe,
                    now,
                    entry@,
                ),
                Err(e) => could_not_register(
                    self.database(),
                    root@,
                    text::opt_str(display_name),
                    *probe,
                    now,
                    e,
                ),
            },
    {
        match check_boundary(root, trusted_root, user_confirmed) {
            Ok(_) => {},
            Err(m) => {
                return Err(MarrowError::Message(m));
            },
        }
        let id = workspace_id_for_root(root);
        let db = graph_db_path(root);
        let answer = match read_as(&self.conn, REGISTERED_SQL, as_int(), bind_one(&id)) {
            Ok(answer) => answer,
            Err(e) => {
                return Err(MarrowError::Store(e));
            },
        };
        let ghost answered = answer@;
        assert(store::could_read(
            self.database(),
            REGISTERED_SQL@,
            store::one_int(),
            store::one_text(workspace_id(root@)),
            answered,
        ));
        let registered_at: i64 = if answer.len() == 0 {
            now as i64
        } else {
            match read_count(answer) {
                Ok(at) => at,
                Err(e) => {
                    return Err(e);
                },
            }
        };
        let (status, _) = classify_workspace_db(probe);
        let params = bind_registration(root, display_name, status, registered_at, now);
        assert(first_registered(answered, now) == Some(registered_at));
        match change(&self.conn, REGISTER_SQL, params) {
            Ok(changed) => {
                proof {
                    assert(store::could_change(
                        self.database(),
                        REGISTER_SQL@,
                        registration(
                            root@,
                            text::opt_str(display_name),
                            probed_status(*probe),
                            first_registered(answered, now)->Some_0,
                            now,
                        ),
                        changed as int,
                    ));
                }
                let entry = WorkspaceEntry {
                    workspace_id: id,
                    workspace_root: root.to_owned(),
                    graph_db_path: db,
                    display_name: owned(display_name),
                    status,
                    registered_at: read_moment(registered_at),
                    last_seen_at: now,
                    error: None,
                };
                assert(could_register(
                    self.database(),
                    root@,
                    text::opt_str(display_name),
                    *probe,
                    now,
                    entry@,
                ));
                Ok(entry)
            },
            Err(e) => Err(MarrowError::Store(e)),
        }
    }

    /// The workspaces of the register, with the state that was stored of each.
    pub fn stored_workspaces(&self) -> (r: Result<Vec<WorkspaceEntry>, MarrowError>)
        ensures
            r matches Ok(v) ==> exists|answer: Seq<Result<Vec<Cell>, rusqlite::Error>>|
                #[trigger] store::could_read(
                    self.database(),
                    LIST_SQL@,
                    entry_kinds(),
                    Seq::empty(),
                    answer,
                ) && all_entries(
                    answer,
                ) && entry_texts(v@) == entries_of(answer),
            r matches Err(e) ==> could_not_list(self.database(), e),
    {
        let params: Vec<Param> = Vec::new();
        assert(store::bounds(params@) =~= Seq::empty());
        match read_as(&self.conn, LIST_SQL, as_entry(), params) {
            Ok(answer) => {
                assert(store::could_read(
                    self.database(),
                    LIST_SQL@,
                    entry_kinds(),
                    Seq::empty(),
                    answer@,
                ));
                read_entries(answer)
            },
            Err(e) => Err(MarrowError::Store(e)),
        }
    }

    /// The workspaces as they are shown, given what the database of each shows now.
    pub fn list_workspaces(stored: Vec<WorkspaceEntry>, probes: &Vec<DbProbe>) -> (r: Vec<
        WorkspaceEntry,
    >)
        requires
            stored.len() == probes.len(),
        ensures
            r.len() == stored.len(),
            forall|i: int|
                0 <= i < r.len() ==> (#[trigger] r@[i])@ == seen_entry(stored@[i]@, probes@[i]),
    {
        let mut out: Vec<WorkspaceEntry> = Vec::new();
        let mut i: usize = 0;
        while i < stored.len()
            invariant
                i <= stored.len(),
                stored.len() == probes.len(),
                out.len() == i,
                forall|k: int|
                    0 <= k < i ==> (#[trigger] out@[k])@ == seen_entry(stored@[k]@, probes@[k]),
            decreases stored.len() - i,
        {
            let entry = &stored[i];
            let (status, error) = classify_workspace_db(&probes[i]);
            let shown = WorkspaceEntry {
                workspace_id: entry.workspace_id.clone(),
                workspace_root: entry.workspace_root.clone(),
                graph_db_path: entry.graph_db_path.clone(),
                display_name: copy_text(&entry.display_name),
                status: if status == WorkspaceStatus::InaccessibleDb {
                    entry.status
                } else {
                    status
                },
                registered_at: entry.registered_at,
                last_seen_at: entry.last_seen_at,
                error,
            };
            out.push(shown);
            i += 1;
        }
        out
    }

    /// The entry of a workspace, with the state that was stored of it.
    pub fn find_workspace(&self, workspace_id: &str) -> (r: Result<
        Option<WorkspaceEntry>,
        MarrowError,
    >)
        ensures
            r matches Ok(found) ==> exists|answer: Seq<Result<Vec<Cell>, rusqlite::Error>>|
                {
                    &&& #[trigger] store::could_read(
                        self.database(),
                        FIND_SQL@,
                        entry_kinds(),
                        store::one_text(workspace_id@),
                        answer,
                    )
                    &&& answer.len() == 0 <==> found is None
                    &&& found matches Some(entry) ==> answer[0] is Ok && stored_entry(
                        answer[0]->Ok_0@,
                    ) == Some(entry@)
                },
            r matches Err(e) ==> could_not_find(self.database(), workspace_id@, e),
    {
        let answer = match read_as(&self.conn, FIND_SQL, as_entry(), bind_one(workspace_id)) {
            Ok(answer) => answer,
            Err(e) => {
                return Err(MarrowError::Store(e));
            },
        };
        assert(store::could_read(
            self.database(),
            FIND_SQL@,
            entry_kinds(),
            store::one_text(workspace_id@),
            answer@,
        ));
        if answer.len() == 0 {
            return Ok(None);
        }
        let entry = match &answer[0] {
            Ok(row) => read_entry(row),
            Err(_) => None,
        };
        match entry {
            Some(entry) => Ok(Some(entry)),
            None => {
                proof {
                    if answer@[0] is Ok {
                        lemma_fitting_rows_are_entries(answer@[0]->Ok_0@);
                    }
                }
                Err(failure_at(answer, 0))
            },
        }
    }
}

fn owned(v: Option<&str>) -> (r: Option<String>)
    ensures
        text::opt_text(r) == text::opt_str(v),
{
    match v {
        Some(s) => Some(s.to_owned()),
        None => None,
    }
}

fn bind_registration(
    root: &str,
    name: Option<&str>,
    status: WorkspaceStatus,
    registered_at: i64,
    now: u64,
) -> (r: Vec<Param>)
    ensures
        store::bounds(r@) == registration(root@, text::opt_str(name), status, registered_at, now),
{
    let shown = match name {
        Some(n) => Param::Text(n.to_owned()),
        None => Param::Null,
    };
    let mut params: Vec<Param> = Vec::new();
    params.push(Param::Text(workspace_id_for_root(root)));
    params.push(Param::Text(root.to_owned()));
    params.push(Param::Text(graph_db_path(root)));
    params.push(shown);
    params.push(Param::Text(status.as_str().to_owned()));
    params.push(Param::Int(registered_at));
    params.push(Param::Int(now as i64));
    assert(store::bounds(params@) =~= registration(
        root@,
        text::opt_str(name),
        status,
        registered_at,
        now,
    ));
    params
}

fn copy_text(v: &Option<String>) -> (r: Option<String>)
    ensures
        text::opt_text(r) == text::opt_text(*v),
{
    match v {
        Some(s) => Some(s.clone()),
        None => None,
    }
}

/// Registers a workspace if the register can be opened and the workspace is there, and
/// keeps silent otherwise.
pub fn register_workspace_best_effort(
    registry: Option<&Registry>,
    root: Option<&str>,
    probe: &DbProbe,
    now: u64,
) -> (r: Option<WorkspaceEntry>)
    ensures
        registry is None || root is None ==> r is None,
        registry is Some && root is Some ==> ({
            let db = registry->Some_0.database();
            let at = root->Some_0@;
            match r {
                Some(entry) => could_register(db, at, None, *probe, now, entry@),
                None => exists|e: MarrowError| #[trigger]
                    could_not_register(db, at, None, *probe, now, e),
            }
        }),
{
    match (registry, root) {
        (Some(registry), Some(root)) => match registry.register_workspace(root, None, probe, now) {
            Ok(entry) => Some(entry),
            Err(e) => {
                assert(could_not_register(registry.database(), root@, None, *probe, now, e));
                None
            },
        },
        _ => None,
    }
}

// ── Cleaning up ──────────────────────────────────────────────────────────────

/// What is said of a cleanup that nobody confirmed.
pub const UNCONFIRMED: &'static str = "cleanup action requires explicit confirmation";

/// What was found on disk of a workspace that is to be cleaned up. Each path is what
/// the place really is, or why it could not be followed.
pub struct CleanupDisk {
    pub root: Result<String, String>,
    pub index_dir: Result<String, String>,
    pub db_exists: bool,
    pub db: Result<String, String>,
    pub expected_db: Result<String, String>,
}

/// What is said of a database that is not where a workspace keeps it.
pub open spec fn misplaced(dir: Seq<char>) -> Seq<char> {
    "cleanup target is not the registered Marrow graph DB path under "@ + dir
}

/// Why an existing database may not be touched.
pub open spec fn existing_refusal(
    root: Seq<char>,
    dir: Seq<char>,
    db: Result<Seq<char>, Seq<char>>,
    expected: Result<Seq<char>, Seq<char>>,
) -> Option<Seq<char>> {
    match (db, expected) {
        (Err(m), _) => Some(m),
        (_, Err(m)) => Some(m),
        (Ok(db), Ok(expected)) => if paths::lies_within(db, root) && paths::lies_within(db, dir)
            && paths::same_path(db, expected) {
            None
        } else {
            Some(misplaced(dir))
        },
    }
}

/// Why the database of a workspace may not be touched, if it may not.
pub open spec fn cleanup_refusal(entry: WorkspaceText, disk: CleanupDisk) -> Option<Seq<char>> {
    match (paths::result_text(disk.root), paths::result_text(disk.index_dir)) {
        (Err(m), _) => Some(m),
        (_, Err(m)) => Some(m),
        (Ok(root), Ok(dir)) => if !paths::lies_within(dir, root) {
            Some("registered Marrow directory escapes workspace root: "@ + dir)
        } else if !paths::same_path(entry.db, graph_db(root)) {
            Some(misplaced(index_dir(root)))
        } else if !disk.db_exists {
            Some("registered graph DB is missing: "@ + entry.db)
        } else {
            existing_refusal(
                root,
                dir,
                paths::result_text(disk.db),
                paths::result_text(disk.expected_db),
            )
        },
    }
}

/// A database that may be touched is the one that its workspace keeps, and what it
/// really is on disk lies in that workspace's own index directory.
pub proof fn law_cleanup_stays_inside(entry: WorkspaceText, disk: CleanupDisk)
    requires
        cleanup_refusal(entry, disk) is None,
    ensures
        disk.root is Ok && disk.index_dir is Ok && disk.db is Ok,
        paths::same_path(entry.db, graph_db(disk.root->Ok_0@)),
        paths::lies_within(disk.index_dir->Ok_0@, disk.root->Ok_0@),
        paths::lies_within(disk.db->Ok_0@, disk.index_dir->Ok_0@),
        disk.db_exists,
{
}

fn misplaced_text(dir: &str) -> (r: String)
    ensures
        r@ == misplaced(dir@),
{
    "cleanup target is not the registered Marrow graph DB path under ".to_owned().concat(dir)
}

fn check_existing(root: &str, dir: &str, disk: &CleanupDisk) -> (r: Result<(), String>)
    ensures
        match r {
            Ok(_) => existing_refusal(
                root@,
                dir@,
                paths::result_text(disk.db),
                paths::result_text(disk.expected_db),
            ) is None,
            Err(m) => existing_refusal(
                root@,
                dir@,
                paths::result_text(disk.db),
                paths::result_text(disk.expected_db),
            ) == Some(m@),
        },
{
    let db: &String = match &disk.db {
        Ok(db) => db,
        Err(m) => {
            return Err(m.clone());
        },
    };
    let expected: &String = match &disk.expected_db {
        Ok(expected) => expected,
        Err(m) => {
            return Err(m.clone());
        },
    };
    if is_within(db, root) && is_within(db, dir) && equal_paths(db, expected) {
        Ok(())
    } else {
        Err(misplaced_text(dir))
    }
}

/// Whether the database of a workspace may be touched.
pub fn validate_cleanup(entry: &WorkspaceEntry, disk: &CleanupDisk) -> (r: Result<(), String>)
    ensures
        match r {
            Ok(_) => cleanup_refusal(entry@, *disk) is None,
            Err(m) => cleanup_refusal(entry@, *disk) == Some(m@),
        },
{
    let root: &String = match &disk.root {
        Ok(root) => root,
        Err(m) => {
            return Err(m.clone());
        },
    };
    let dir: &String = match &disk.index_dir {
        Ok(dir) => dir,
        Err(m) => {
            return Err(m.clone());
        },
    };
    if !is_within(dir, root) {
        return Err("registered Marrow directory escapes workspace root: ".to_owned().concat(dir));
    }
    if !equal_paths(&entry.graph_db_path, &graph_db_path(root)) {
        return Err(misplaced_text(&join_path(root, INDEX_DIR)));
    }
    if !disk.db_exists {
        return Err("registered graph DB is missing: ".to_owned().concat(&entry.graph_db_path));
    }
    check_existing(root, dir, disk)
}

/// What is left to do for a cleanup.
#[derive(Debug, Eq, PartialEq)]
pub enum CleanupAction {
    /// The workspace is off the register.
    Unregistered,
    /// The contents of this database are to be cleared.
    ClearIndex(String),
    /// This file is to be deleted.
    DeleteFile(String),
}

impl Registry {
    /// Cleans a workspace up as far as the register goes, and says what is left to do.
    /// `target` is the workspace's entry and what was found of it on disk; taking it off
    /// the register needs neither.
    pub fn cleanup_workspace(
        &self,
        workspace_id: &str,
        kind: CleanupKind,
        confirmed: bool,
        target: Option<(&WorkspaceEntry, &CleanupDisk)>,
    ) -> (r: Result<CleanupAction, MarrowError>)
        ensures
            !confirmed ==> (r matches Err(MarrowError::Message(m)) && m@ == UNCONFIRMED@),
            confirmed && kind == CleanupKind::Unregister ==> match r {
                Ok(action) => action == CleanupAction::Unregistered && exists|changed: int|
                    changed > 0 && #[trigger] store::could_change(
                        self.database(),
                        UNREGISTER_SQL@,
                        store::one_text(workspace_id@),
                        changed,
                    ),
                Err(MarrowError::Message(m)) => m@ == unknown_workspace(workspace_id@)
                    && store::could_change(
                    self.database(),
                    UNREGISTER_SQL@,
                    store::one_text(workspace_id@),
                    0,
                ),
                Err(MarrowError::Store(why)) => store::could_reject(
                    self.database(),
                    UNREGISTER_SQL@,
                    store::one_text(workspace_id@),
                    why,
                ),
            },
            confirmed && kind != CleanupKind::Unregister ==> match target {
                Some((entry, disk)) => match cleanup_refusal(entry@, *disk) {
                    Some(why) => r matches Err(MarrowError::Message(m)) && m@ == why,
                    None => match kind {
                        CleanupKind::ClearIndex => r matches Ok(CleanupAction::ClearIndex(db))
                            && db@ == entry@.db,
                        _ => r matches Ok(CleanupAction::DeleteFile(db)) && db@ == entry@.db,
                    },
                },
                None => r matches Err(MarrowError::Message(m)) && m@ == unknown_workspace(
                    workspace_id@,
                ),
            },
    {
        if !confirmed {
            return Err(MarrowError::Message(UNCONFIRMED.to_owned()));
        }
        if kind == CleanupKind::Unregister {
            return match change(&self.conn, UNREGISTER_SQL, bind_one(workspace_id)) {
                Ok(changed) => {
                    assert(store::could_change(
                        self.database(),
                        UNREGISTER_SQL@,
                        store::one_text(workspace_id@),
                        changed as int,
                    ));
                    if changed == 0 {
                        Err(MarrowError::Message(not_registered(workspace_id)))
                    } else {
                        Ok(CleanupAction::Unregistered)
                    }
                },
                Err(e) => Err(MarrowError::Store(e)),
            };
        }
        match target {
            Some((entry, disk)) => match validate_cleanup(entry, disk) {
                Ok(_) => {
                    let db = entry.graph_db_path.clone();
                    match kind {
                        CleanupKind::ClearIndex => Ok(CleanupAction::ClearIndex(db)),
                        _ => Ok(CleanupAction::DeleteFile(db)),
                    }
                },
                Err(m) => Err(MarrowError::Message(m)),
            },
            None => Err(MarrowError::Message(not_registered(workspace_id))),
        }
    }

    /// Notes that a workspace's database is gone.
    pub fn mark_db_missing(&self, workspace_id: &str) -> (r: Result<usize, MarrowError>)
        ensures
            match r {
                Ok(changed) => store::could_change(
                    self.database(),
                    SET_STATUS_SQL@,
                    store::two_texts(WorkspaceStatus::MissingDb.name(), workspace_id@),
                    changed as int,
                ),
                Err(e) => e matches MarrowError::Store(why) && store::could_reject(
                    self.database(),
                    SET_STATUS_SQL@,
                    store::two_texts(WorkspaceStatus::MissingDb.name(), workspace_id@),
                    why,
                ),
            },
    {
        match change(
            &self.conn,
            SET_STATUS_SQL,
            bind_two(WorkspaceStatus::MissingDb.as_str(), workspace_id),
        ) {
            Ok(changed) => Ok(changed),
            Err(e) => Err(MarrowError::Store(e)),
        }
    }
}

// ── Inventory ────────────────────────────────────────────────────────────────

/// How much a graph database holds.
#[derive(Clone, Copy, Debug, Eq, PartialEq, Structural)]
pub struct ScopeCounts {
    pub repo_count: i64,
    pub symbol_count: i64,
    pub file_count: i64,
}

/// A repository that a graph database holds.
#[derive(Clone, Debug, Eq, PartialEq)]
pub struct IndexedRepo {
    pub repo_id: String,
    pub root_path: String,
}

/// A repository without its representation.
pub struct RepoText {
    pub repo_id: Seq<char>,
    pub root_path: Seq<char>,
}

impl View for IndexedRepo {
    type V = RepoText;

    open spec fn view(&self) -> RepoText {
        RepoText { repo_id: self.repo_id@, root_path: self.root_path@ }
    }
}

/// The repositories of a list.
pub open spec fn repo_texts(v: Seq<IndexedRepo>) -> Seq<RepoText> {
    Seq::new(v.len(), |i: int| v[i]@)
}

/// What a graph database turned out to hold.
#[derive(Clone, Debug, Eq, PartialEq)]
pub struct GraphScope {
    pub counts: ScopeCounts,
    pub repos: Vec<IndexedRepo>,
}

/// A workspace and what its database holds.
#[derive(Clone, Debug, Eq, PartialEq)]
pub struct DbInventoryRow {
    pub entry: WorkspaceEntry,
    pub counts: ScopeCounts,
    pub repos: Vec<IndexedRepo>,
}

/// An inventory without its representation.
pub struct InventoryText {
    pub entry: WorkspaceText,
    pub counts: ScopeCounts,
    pub repos: Seq<RepoText>,
}

impl View for DbInventoryRow {
    type V = InventoryText;

    open spec fn view(&self) -> InventoryText {
        InventoryText {
            entry: self.entry@,
            counts: self.counts,
            repos: repo_texts(self.repos@),
        }
    }
}

/// The counts of a database that was not read.
pub open spec fn no_counts() -> ScopeCounts {
    ScopeCounts { repo_count: 0, symbol_count: 0, file_count: 0 }
}

/// The inventory of a workspace, given what its database turned out to hold.
pub open spec fn inventoried(
    entry: WorkspaceText,
    scope: Result<GraphScope, String>,
) -> InventoryText {
    if !entry.status.readable() {
        InventoryText { entry, counts: no_counts(), repos: Seq::empty() }
    } else {
        match scope {
            Ok(held) => InventoryText {
                entry: WorkspaceText {
                    status: filled(held.counts.symbol_count, held.counts.file_count),
                    ..entry
                },
                counts: held.counts,
                repos: repo_texts(held.repos@),
            },
            Err(m) => InventoryText {
                entry: WorkspaceText {
                    status: failure_status(scan::lowercase(m@)),
                    error: Some(m@),
                    ..entry
                },
                counts: no_counts(),
                repos: Seq::empty(),
            },
        }
    }
}

fn copy_repos(repos: &Vec<IndexedRepo>) -> (r: Vec<IndexedRepo>)
    ensures
        repo_texts(r@) == repo_texts(repos@),
{
    let mut out: Vec<IndexedRepo> = Vec::new();
    let mut i: usize = 0;
    while i < repos.len()
        invariant
            i <= repos.len(),
            out.len() == i,
            forall|k: int| 0 <= k < i ==> (#[trigger] out@[k])@ == repos@[k]@,
        decreases repos.len() - i,
    {
        out.push(
            IndexedRepo {
                repo_id: repos[i].repo_id.clone(),
                root_path: repos[i].root_path.clone(),
            },
        );
        i += 1;
    }
    assert(repo_texts(out@) =~= repo_texts(repos@));
    out
}

fn copy_entry(entry: &WorkspaceEntry) -> (r: WorkspaceEntry)
    ensures
        r@ == entry@,
{
    WorkspaceEntry {
        workspace_id: entry.workspace_id.clone(),
        workspace_root: entry.workspace_root.clone(),
        graph_db_path: entry.graph_db_path.clone(),
        display_name: copy_text(&entry.display_name),
        status: entry.status,
        registered_at: entry.registered_at,
        last_seen_at: entry.last_seen_at,
        error: copy_text(&entry.error),
    }
}

/// The inventory of a workspace, given what its database turned out to hold.
pub fn inventory_for_entry(entry: &WorkspaceEntry, scope: &Result<GraphScope, String>) -> (r:
    DbInventoryRow)
    ensures
        r@ == inventoried(entry@, *scope),
{
    let mut shown = copy_entry(entry);
    let mut counts = ScopeCounts { repo_count: 0, symbol_count: 0, file_count: 0 };
    let mut repos: Vec<IndexedRepo> = Vec::new();
    assert(repo_texts(repos@) =~= Seq::empty());
    if entry.status.is_readable() {
        match scope {
            Ok(held) => {
                counts = held.counts;
                repos = copy_repos(&held.repos);
                shown.status = filled_status(held.counts.symbol_count, held.counts.file_count);
            },
            Err(m) => {
                let (status, error) = classify_error(m);
                shown.status = status;
                shown.error = error;
            },
        }
    }
    DbInventoryRow { entry: shown, counts, repos }
}

/// What a workspace has been asked for in its lifetime.
#[derive(Clone, Copy, Debug, Eq, PartialEq, Structural)]
pub struct Counters {
    pub total_requests: i64,
    pub total_tokens_saved: i64,
    pub total_file_tokens: i64,
    pub pipeline_requests: i64,
    pub direct_low_level_autorouted: i64,
    pub direct_low_level_rejected: i64,
    pub ambiguous_symbol_requests: i64,
    pub stale_capsule_prevented: i64,
}

/// A counter as a database stores it.
#[derive(Clone, Debug, Eq, PartialEq)]
pub struct Stat {
    pub key: String,
    pub value: i64,
}

/// The value that a counter has in a list, zero where it is not there.
pub open spec fn stat(stats: Seq<Stat>, key: Seq<char>) -> i64
    decreases stats.len(),
{
    if stats.len() == 0 {
        0
    } else if stats[0].key@ == key {
        stats[0].value
    } else {
        stat(stats.skip(1), key)
    }
}

fn read_stat(stats: &Vec<Stat>, key: &str) -> (r: i64)
    ensures
        r == stat(stats@, key@),
{
    let mut i: usize = 0;
    assert(stats@.skip(0) =~= stats@);
    while i < stats.len()
        invariant
            i <= stats.len(),
            stat(stats@, key@) == stat(stats@.skip(i as int), key@),
        decreases stats.len() - i,
    {
        assert(stats@.skip(i as int)[0] == stats@[i as int]);
        if same(&stats[i].key, key) {
            return stats[i].value;
        }
        assert(stats@.skip(i as int).skip(1) =~= stats@.skip(i + 1));
        i += 1;
    }
    0
}

/// The counters of a list.
pub open spec fn counters_of(stats: Seq<Stat>) -> Counters {
    Counters {
        total_requests: stat(stats, "total_requests"@),
        total_tokens_saved: stat(stats, "total_tokens_saved"@),
        total_file_tokens: stat(stats, "total_file_tokens"@),
        pipeline_requests: stat(stats, "pipeline_requests"@),
        direct_low_level_autorouted: stat(stats, "direct_low_level_autorouted"@),
        direct_low_level_rejected: stat(stats, "direct_low_level_rejected"@),
        ambiguous_symbol_requests: stat(stats, "ambiguous_symbol_requests"@),
        stale_capsule_prevented: stat(stats, "stale_capsule_prevented"@),
    }
}

/// The counters of a list.
pub fn read_counters(stats: &Vec<Stat>) -> (r: Counters)
    ensures
        r == counters_of(stats@),
{
    Counters {
        total_requests: read_stat(stats, "total_requests"),
        total_tokens_saved: read_stat(stats, "total_tokens_saved"),
        total_file_tokens: read_stat(stats, "total_file_tokens"),
        pipeline_requests: read_stat(stats, "pipeline_requests"),
        direct_low_level_autorouted: read_stat(stats, "direct_low_level_autorouted"),
        direct_low_level_rejected: read_stat(stats, "direct_low_level_rejected"),
        ambiguous_symbol_requests: read_stat(stats, "ambiguous_symbol_requests"),
        stale_capsule_prevented: read_stat(stats, "stale_capsule_prevented"),
    }
}

/// The sum of two numbers, where it fits.
pub open spec fn sum(a: i64, b: i64) -> Option<i64> {
    if i64::MIN <= a + b <= i64::MAX {
        Some((a + b) as i64)
    } else {
        None
    }
}

fn add_checked(a: i64, b: i64) -> (r: Option<i64>)
    ensures
        r == sum(a, b),
{
    a.checked_add(b)
}

/// Counters added up one by one, where every sum fits.
pub open spec fn added(a: Counters, b: Counters) -> Option<Counters> {
    match (
        sum(a.total_requests, b.total_requests),
        sum(a.total_tokens_saved, b.total_tokens_saved),
        sum(a.total_file_tokens, b.total_file_tokens),
        sum(a.pipeline_requests, b.pipeline_requests),
        sum(a.direct_low_level_autorouted, b.direct_low_level_autorouted),
        sum(a.direct_low_level_rejected, b.direct_low_level_rejected),
        sum(a.ambiguous_symbol_requests, b.ambiguous_symbol_requests),
        sum(a.stale_capsule_prevented, b.stale_capsule_prevented),
    ) {
        (
            Some(total_requests),
            Some(total_tokens_saved),
            Some(total_file_tokens),
            Some(pipeline_requests),
            Some(direct_low_level_autorouted),
            Some(direct_low_level_rejected),
            Some(ambiguous_symbol_requests),
            Some(stale_capsule_prevented),
        ) => Some(
            Counters {
                total_requests,
                total_tokens_saved,
                total_file_tokens,
                pipeline_requests,
                direct_low_level_autorouted,
                direct_low_level_rejected,
                ambiguous_symbol_requests,
                stale_capsule_prevented,
            },
        ),
        _ => None,
    }
}

/// Counters added up one by one, where every sum fits.
pub fn add_counters(a: &Counters, b: &Counters) -> (r: Option<Counters>)
    ensures
        r == added(*a, *b),
{
    match (
        add_checked(a.total_requests, b.total_requests),
        add_checked(a.total_tokens_saved, b.total_tokens_saved),
        add_checked(a.total_file_tokens, b.total_file_tokens),
        add_checked(a.pipeline_requests, b.pipeline_requests),
        add_checked(a.direct_low_level_autorouted, b.direct_low_level_autorouted),
        add_checked(a.direct_low_level_rejected, b.direct_low_level_rejected),
        add_checked(a.ambiguous_symbol_requests, b.ambiguous_symbol_requests),
        add_checked(a.stale_capsule_prevented, b.stale_capsule_prevented),
    ) {
        (
            Some(total_requests),
            Some(total_tokens_saved),
            Some(total_file_tokens),
            Some(pipeline_requests),
            Some(direct_low_level_autorouted),
            Some(direct_low_level_rejected),
            Some(ambiguous_symbol_requests),
            Some(stale_capsule_prevented),
        ) => Some(
            Counters {
                total_requests,
                total_tokens_saved,
                total_file_tokens,
                pipeline_requests,
                direct_low_level_autorouted,
                direct_low_level_rejected,
                ambiguous_symbol_requests,
                stale_capsule_prevented,
            },
        ),
        _ => None,
    }
}

/// What was read of one workspace's database.
pub struct DbReading {
    pub scope: Result<GraphScope, String>,
    pub stats: Vec<Stat>,
}

/// The counters of the first `n` workspaces together: those of the ones whose database
/// could be read.
pub open spec fn lifetime(
    entries: Seq<WorkspaceText>,
    readings: Seq<DbReading>,
    n: int,
) -> Option<Counters>
    decreases n,
{
    if n <= 0 {
        Some(counters_of(Seq::empty()))
    } else {
        let before = lifetime(entries, readings, n - 1);
        let row = inventoried(entries[n - 1], readings[n - 1].scope);
        if row.entry.status.readable() {
            match before {
                Some(total) => added(total, counters_of(readings[n - 1].stats@)),
                None => None,
            }
        } else {
            before
        }
    }
}

/// The inventory of a workspace keeps the workspace. Of a database that can be read it
/// tells what was counted and found, and the state that follows from it, or why it could
/// not be read after all; of any other it tells nothing.
pub proof fn law_inventories_tell_what_was_read(
    entry: WorkspaceText,
    scope: Result<GraphScope, String>,
)
    ensures
        ({
            let row = inventoried(entry, scope);
            let readable = entry.status == WorkspaceStatus::Available || entry.status
                == WorkspaceStatus::Empty;
            &&& row.entry.id == entry.id && row.entry.root == entry.root && row.entry.db
                == entry.db && row.entry.name == entry.name && row.entry.registered_at
                == entry.registered_at && row.entry.last_seen_at == entry.last_seen_at
            &&& !readable ==> row.entry == entry && row.counts.repo_count == 0
                && row.counts.symbol_count == 0 && row.counts.file_count == 0 && row.repos.len() == 0
            &&& readable ==> match scope {
                Ok(held) => {
                    &&& row.counts == held.counts
                    &&& row.entry.error == entry.error
                    &&& row.repos.len() == held.repos@.len()
                    &&& forall|i: int|
                        0 <= i < held.repos@.len() ==> (#[trigger] row.repos[i]).repo_id
                            == held.repos@[i].repo_id@ && row.repos[i].root_path
                            == held.repos@[i].root_path@
                    &&& row.entry.status == if held.counts.symbol_count == 0
                        && held.counts.file_count == 0 {
                        WorkspaceStatus::Empty
                    } else {
                        WorkspaceStatus::Available
                    }
                },
                Err(m) => {
                    &&& row.entry.error == Some(m@)
                    &&& row.entry.status == failure_status(scan::lowercase(m@))
                    &&& row.counts.symbol_count == 0 && row.counts.file_count == 0
                        && row.counts.repo_count == 0 && row.repos.len() == 0
                },
            }
        }),
{
}

/// A counter of a database is the first one of its name, and zero where there is none.
pub proof fn law_counters_go_by_their_names(stats: Seq<Stat>, key: Seq<char>, k: int)
    requires
        0 <= k <= stats.len(),
        forall|j: int| 0 <= j < k ==> (#[trigger] stats[j]).key@ != key,
    ensures
        k < stats.len() && stats[k].key@ == key ==> stat(stats, key) == stats[k].value,
        k == stats.len() ==> stat(stats, key) == 0,
    decreases k,
{
    if k > 0 {
        assert(stats[0].key@ != key);
        assert forall|j: int| 0 <= j < k - 1 implies (#[trigger] stats.skip(1)[j]).key@
            != key by {
            assert(stats.skip(1)[j] == stats[j + 1]);
        }
        law_counters_go_by_their_names(stats.skip(1), key, k - 1);
        if k < stats.len() {
            assert(stats.skip(1)[k - 1] == stats[k]);
        }
    }
}

/// Counters are added up name by name, and there is no sum where one does not fit.
pub proof fn law_counters_are_added_name_by_name(a: Counters, b: Counters)
    ensures
        added(a, b) matches Some(c) ==> {
            &&& c.total_requests == a.total_requests + b.total_requests
            &&& c.total_tokens_saved == a.total_tokens_saved + b.total_tokens_saved
            &&& c.total_file_tokens == a.total_file_tokens + b.total_file_tokens
            &&& c.pipeline_requests == a.pipeline_requests + b.pipeline_requests
            &&& c.direct_low_level_autorouted == a.direct_low_level_autorouted
                + b.direct_low_level_autorouted
            &&& c.direct_low_level_rejected == a.direct_low_level_rejected
                + b.direct_low_level_rejected
            &&& c.ambiguous_symbol_requests == a.ambiguous_symbol_requests
                + b.ambiguous_symbol_requests
            &&& c.stale_capsule_prevented == a.stale_capsule_prevented + b.stale_capsule_prevented
        },
{
}

/// The counters of all workspaces together are those of every one whose database could be
/// read, added up in order.
pub proof fn law_lifetimes_add_up_readable_workspaces(
    entries: Seq<WorkspaceText>,
    readings: Seq<DbReading>,
)
    requires
        entries.len() == readings.len(),
    ensures
        lifetime(entries, readings, entries.len() as int) == Seq::new(
            entries.len(),
            |i: int| i,
        ).fold_left(
            Some(counters_of(Seq::empty())),
            |sum: Option<Counters>, i: int|
                {
                    let state = inventoried(entries[i], readings[i].scope).entry.status;
                    if state == WorkspaceStatus::Available || state == WorkspaceStatus::Empty {
                        match sum {
                            Some(total) => added(total, counters_of(readings[i].stats@)),
                            None => None,
                        }
                    } else {
                        sum
                    }
                },
        ),
{
    let add_up = |sum: Option<Counters>, i: int|
        {
            let state = inventoried(entries[i], readings[i].scope).entry.status;
            if state == WorkspaceStatus::Available || state == WorkspaceStatus::Empty {
                match sum {
                    Some(total) => added(total, counters_of(readings[i].stats@)),
                    None => None,
                }
            } else {
                sum
            }
        };
    lemma_lifetime(entries, readings, entries.len() as int, add_up);
}

proof fn lemma_lifetime(
    entries: Seq<WorkspaceText>,
    readings: Seq<DbReading>,
    n: int,
    add_up: spec_fn(Option<Counters>, int) -> Option<Counters>,
)
    requires
        0 <= n <= entries.len(),
        forall|sum: Option<Counters>, i: int| #[trigger]
            add_up(sum, i) == (if inventoried(
                entries[i],
                readings[i].scope,
            ).entry.status.readable() {
                match sum {
                    Some(total) => added(total, counters_of(readings[i].stats@)),
                    None => None,
                }
            } else {
                sum
            }),
    ensures
        lifetime(entries, readings, n) == Seq::new(n as nat, |i: int| i).fold_left(
            Some(counters_of(Seq::empty())),
            add_up,
        ),
    decreases n,
{
    reveal(Seq::fold_left);
    if n > 0 {
        lemma_lifetime(entries, readings, n - 1, add_up);
        assert(Seq::new(n as nat, |i: int| i).drop_last() =~= Seq::new((n - 1) as nat, |i: int| i));
    }
}

/// What the workspaces have been asked for in their lifetime, and what each of them holds.
pub struct GlobalLifetimeStats {
    /// The counters together; none where a sum does not fit.
    pub counters: Option<Counters>,
    pub workspace_statuses: Vec<DbInventoryRow>,
}

/// The lifetime of the workspaces, and the workspaces that it was read from.
pub struct StatsAggregate {
    pub lifetime: GlobalLifetimeStats,
    pub workspaces: Vec<WorkspaceEntry>,
}

/// Whether these are the inventories of workspaces, in their order.
pub open spec fn is_inventory(
    rows: Seq<DbInventoryRow>,
    entries: Seq<WorkspaceText>,
    readings: Seq<DbReading>,
) -> bool {
    &&& rows.len() == entries.len()
    &&& forall|i: int|
        0 <= i < entries.len() ==> (#[trigger] rows[i])@ == inventoried(
            entries[i],
            readings[i].scope,
        )
}

/// Whether this is the lifetime of workspaces.
pub open spec fn is_lifetime(
    r: GlobalLifetimeStats,
    entries: Seq<WorkspaceText>,
    readings: Seq<DbReading>,
) -> bool {
    &&& is_inventory(r.workspace_statuses@, entries, readings)
    &&& r.counters == lifetime(entries, readings, entries.len() as int)
}

impl Registry {
    /// The inventories of the workspaces. `readings` is what was read of their databases,
    /// in the same order.
    pub fn db_inventory(entries: &Vec<WorkspaceEntry>, readings: &Vec<DbReading>) -> (r: Vec<
        DbInventoryRow,
    >)
        requires
            entries.len() == readings.len(),
        ensures
            is_inventory(r@, entry_texts(entries@), readings@),
    {
        let mut rows: Vec<DbInventoryRow> = Vec::new();
        let mut i: usize = 0;
        while i < entries.len()
            invariant
                i <= entries.len(),
                entries.len() == readings.len(),
                rows.len() == i,
                forall|k: int|
                    0 <= k < i ==> (#[trigger] rows@[k])@ == inventoried(
                        entry_texts(entries@)[k],
                        readings@[k].scope,
                    ),
            decreases entries.len() - i,
        {
            assert(entry_texts(entries@)[i as int] == entries@[i as int]@);
            rows.push(inventory_for_entry(&entries[i], &readings[i].scope));
            i += 1;
        }
        rows
    }

    /// The lifetime of the workspaces. Only those whose database could be read are counted.
    pub fn global_lifetime_stats(
        entries: &Vec<WorkspaceEntry>,
        readings: &Vec<DbReading>,
    ) -> (r: GlobalLifetimeStats)
        requires
            entries.len() == readings.len(),
        ensures
            is_lifetime(r, entry_texts(entries@), readings@),
    {
        let ghost views = entry_texts(entries@);
        let rows = Registry::db_inventory(entries, readings);
        let nothing: Vec<Stat> = Vec::new();
        let mut total = Some(read_counters(&nothing));
        let mut i: usize = 0;
        assert(nothing@ =~= Seq::empty());
        while i < rows.len()
            invariant
                i <= rows.len(),
                rows.len() == readings.len(),
                rows.len() == views.len(),
                is_inventory(rows@, views, readings@),
                total == lifetime(views, readings@, i as int),
            decreases rows.len() - i,
        {
            assert(rows@[i as int]@ == inventoried(views[i as int], readings@[i as int].scope));
            if rows[i].entry.status.is_readable() {
                total = match total {
                    Some(sum) => add_counters(&sum, &read_counters(&readings[i].stats)),
                    None => None,
                };
            }
            i += 1;
        }
        GlobalLifetimeStats { counters: total, workspace_statuses: rows }
    }

    /// The lifetime of the workspaces together with the workspaces: what
    /// [`Registry::global_lifetime_stats`] gives of the list, and the list.
    pub fn stats_aggregate(workspaces: Vec<WorkspaceEntry>, readings: &Vec<DbReading>) -> (r:
        StatsAggregate)
        requires
            workspaces.len() == readings.len(),
        ensures
            r.workspaces == workspaces,
            is_lifetime(r.lifetime, entry_texts(workspaces@), readings@),
    {
        let lifetime = Registry::global_lifetime_stats(&workspaces, readings);
        StatsAggregate { lifetime, workspaces }
    }
}

// ── Graph snapshots ──────────────────────────────────────────────────────────

/// A symbol of a drawn graph.
#[derive(Clone, Debug, Eq, PartialEq)]
pub struct GraphNodeDto {
    pub id: String,
    pub label: String,
    pub file_path: String,
    pub symbol_type: String,
    pub degree: i64,
}

/// An edge of a drawn graph.
#[derive(Clone, Debug, Eq, PartialEq)]
pub struct GraphEdgeDto {
    pub source: String,
    pub target: String,
    pub relationship: String,
}

/// A graph to be drawn.
#[derive(Clone, Debug, Eq, PartialEq)]
pub struct GraphSnapshot {
    pub nodes: Vec<GraphNodeDto>,
    pub edges: Vec<GraphEdgeDto>,
    pub truncated: bool,
    pub total_node_count: i64,
    pub workspace_id: String,
    pub repo_id: Option<String>,
    pub status: WorkspaceStatus,
    pub error: Option<String>,
}

/// A drawn symbol without its representation.
pub ghost struct DrawnNode {
    pub id: Seq<char>,
    pub label: Seq<char>,
    pub file: Seq<char>,
    pub kind: Seq<char>,
    pub degree: i64,
}

/// A drawn edge without its representation.
pub ghost struct DrawnEdge {
    pub source: Seq<char>,
    pub target: Seq<char>,
    pub relationship: Seq<char>,
}

impl View for GraphNodeDto {
    type V = DrawnNode;

    open spec fn view(&self) -> DrawnNode {
        DrawnNode {
            id: self.id@,
            label: self.label@,
            file: self.file_path@,
            kind: self.symbol_type@,
            degree: self.degree,
        }
    }
}

impl View for GraphEdgeDto {
    type V = DrawnEdge;

    open spec fn view(&self) -> DrawnEdge {
        DrawnEdge {
            source: self.source@,
            target: self.target@,
            relationship: self.relationship@,
        }
    }
}

/// The number of symbols that a drawn graph has unless more are asked for.
pub const GRAPH_INITIAL_NODE_CAP_DEFAULT: usize = 500;

/// The number of symbols that a drawn graph has unless more are asked for.
pub fn default_graph_limit() -> (r: usize)
    ensures
        r == GRAPH_INITIAL_NODE_CAP_DEFAULT,
{
    GRAPH_INITIAL_NODE_CAP_DEFAULT
}

pub const SYMBOL_COUNT_SQL: &'static str = "SELECT COUNT(*) FROM nodes";

pub const FILE_COUNT_SQL: &'static str = "SELECT COUNT(*) FROM files";

pub const FIRST_REPO_SQL: &'static str =
    "SELECT id FROM repositories WHERE EXISTS (SELECT 1 FROM nodes WHERE repo_id = repositories.id) OR EXISTS (SELECT 1 FROM files WHERE repo_id = repositories.id) ORDER BY id ASC LIMIT 1";

pub const REPO_COUNT_SQL: &'static str = "SELECT COUNT(*) FROM nodes WHERE repo_id = ?1";

pub const GRAPH_NODES_SQL: &'static str =
    "WITH valid_edges AS (SELECT e.source_id, e.target_id, src.repo_id AS source_repo, tgt.repo_id AS target_repo FROM edges e JOIN nodes src ON src.id = e.source_id JOIN nodes tgt ON tgt.id = e.target_id WHERE src.repo_id = ?1 OR tgt.repo_id = ?1), degree_counts AS (SELECT id, COUNT(*) AS degree FROM (SELECT source_id AS id FROM valid_edges WHERE source_repo = ?1 UNION ALL SELECT target_id AS id FROM valid_edges WHERE target_repo = ?1) GROUP BY id) SELECT n.id, n.symbol_name, n.file_path, COALESCE(n.symbol_type, 'unknown'), COALESCE(dc.degree, 0) FROM nodes n LEFT JOIN degree_counts dc ON dc.id = n.id WHERE n.repo_id = ?1 ORDER BY COALESCE(dc.degree, 0) DESC, n.file_path ASC, n.symbol_name ASC, n.id ASC LIMIT ?2";

pub const GRAPH_EDGES_SQL: &'static str =
    "WITH valid_edges AS (SELECT e.source_id, e.target_id, src.repo_id AS source_repo, tgt.repo_id AS target_repo FROM edges e JOIN nodes src ON src.id = e.source_id JOIN nodes tgt ON tgt.id = e.target_id WHERE src.repo_id = ?1 OR tgt.repo_id = ?1), degree_counts AS (SELECT id, COUNT(*) AS degree FROM (SELECT source_id AS id FROM valid_edges WHERE source_repo = ?1 UNION ALL SELECT target_id AS id FROM valid_edges WHERE target_repo = ?1) GROUP BY id), top_nodes AS (SELECT n.id FROM nodes n LEFT JOIN degree_counts dc ON dc.id = n.id WHERE n.repo_id = ?1 ORDER BY COALESCE(dc.degree, 0) DESC, n.file_path ASC, n.symbol_name ASC, n.id ASC LIMIT ?2) SELECT e.source_id, e.target_id, COALESCE(e.relationship_type, 'CALLS') FROM edges e JOIN top_nodes src ON src.id = e.source_id JOIN top_nodes tgt ON tgt.id = e.target_id ORDER BY e.source_id ASC, e.target_id ASC, e.relationship_type ASC";

/// The number that a statement without values counts.
fn count_all(conn: &rusqlite::Connection, sql: &str) -> (r: Result<i64, MarrowError>)
    ensures
        match r {
            Ok(n) => store::could_count(*conn, sql@, Seq::empty(), n),
            Err(e) => store::could_not_count(*conn, sql@, Seq::empty(), e),
        },
{
    let params: Vec<Param> = Vec::new();
    assert(store::bounds(params@) =~= Seq::empty());
    count(conn, sql, params)
}

/// Whether counting what a graph database holds could fail with this text.
pub open spec fn could_not_probe(db: rusqlite::Connection, why: Seq<char>) -> bool {
    exists|e: MarrowError| #[trigger]
        e.says(why) && (store::could_not_count(db, SYMBOL_COUNT_SQL@, Seq::empty(), e)
            || store::could_not_count(db, FILE_COUNT_SQL@, Seq::empty(), e))
}

/// What a graph database shows, given whether there is one and what opening it gave.
pub fn probe_graph_db(exists: bool, opened: Result<&rusqlite::Connection, String>) -> (r: DbProbe)
    ensures
        !exists ==> r is Missing,
        exists ==> match opened {
            Err(m) => r matches DbProbe::Failed(why) && why@ == m@,
            Ok(conn) => match r {
                DbProbe::Missing => false,
                DbProbe::Counted(symbols, files) => {
                    &&& store::could_count(*conn, SYMBOL_COUNT_SQL@, Seq::empty(), symbols)
                    &&& store::could_count(*conn, FILE_COUNT_SQL@, Seq::empty(), files)
                },
                DbProbe::Failed(why) => could_not_probe(*conn, why@),
            },
        },
{
    if !exists {
        return DbProbe::Missing;
    }
    let conn: &rusqlite::Connection = match opened {
        Ok(conn) => conn,
        Err(m) => {
            return DbProbe::Failed(m);
        },
    };
    let symbols: i64 = match count_all(conn, SYMBOL_COUNT_SQL) {
        Ok(n) => n,
        Err(e) => {
            return DbProbe::Failed(e.text());
        },
    };
    let files: i64 = match count_all(conn, FILE_COUNT_SQL) {
        Ok(n) => n,
        Err(e) => {
            return DbProbe::Failed(e.text());
        },
    };
    DbProbe::Counted(symbols, files)
}

/// The symbol that a row holds.
pub open spec fn drawn_node(row: Seq<Cell>) -> Option<DrawnNode> {
    match (
        store::text_at(row, 0),
        store::text_at(row, 1),
        store::text_at(row, 2),
        store::text_at(row, 3),
        store::int_at(row, 4),
    ) {
        (Some(id), Some(label), Some(file), Some(kind), Some(degree)) => Some(
            DrawnNode { id, label, file, kind, degree },
        ),
        _ => None,
    }
}

/// The edge that a row holds.
pub open spec fn drawn_edge(row: Seq<Cell>) -> Option<DrawnEdge> {
    match (store::text_at(row, 0), store::text_at(row, 1), store::text_at(row, 2)) {
        (Some(source), Some(target), Some(relationship)) => Some(
            DrawnEdge { source, target, relationship },
        ),
        _ => None,
    }
}

/// What the columns of a symbol are read as.
pub open spec fn node_kinds() -> Seq<Kind> {
    seq![Kind::Text, Kind::Text, Kind::Text, Kind::Text, Kind::Int]
}

fn as_node() -> (r: Vec<Kind>)
    ensures
        r@ == node_kinds(),
{
    let kinds = vec![Kind::Text, Kind::Text, Kind::Text, Kind::Text, Kind::Int];
    assert(kinds@ =~= node_kinds());
    kinds
}

proof fn lemma_fitting_rows_are_nodes(row: Seq<Cell>)
    requires
        store::fits(row, node_kinds()),
    ensures
        drawn_node(row) is Some,
{
    assert(store::suits(row[0], node_kinds()[0]));
    assert(store::suits(row[1], node_kinds()[1]));
    assert(store::suits(row[2], node_kinds()[2]));
    assert(store::suits(row[3], node_kinds()[3]));
    assert(store::suits(row[4], node_kinds()[4]));
}

proof fn lemma_fitting_rows_are_edges(row: Seq<Cell>)
    requires
        store::fits(row, store::texts_only(3)),
    ensures
        drawn_edge(row) is Some,
{
    assert(store::suits(row[0], store::texts_only(3)[0]));
    assert(store::suits(row[1], store::texts_only(3)[1]));
    assert(store::suits(row[2], store::texts_only(3)[2]));
}

/// Whether these are the symbols of an answer, row by row.
pub open spec fn are_nodes(
    nodes: Seq<GraphNodeDto>,
    answer: Seq<Result<Vec<Cell>, rusqlite::Error>>,
) -> bool {
    nodes.len() == answer.len() && forall|i: int|
        0 <= i < answer.len() ==> (#[trigger] answer[i] matches Ok(row) && drawn_node(row@) == Some(
            nodes[i]@,
        ))
}

/// Whether these are the edges of an answer, row by row.
pub open spec fn are_edges(
    edges: Seq<GraphEdgeDto>,
    answer: Seq<Result<Vec<Cell>, rusqlite::Error>>,
) -> bool {
    edges.len() == answer.len() && forall|i: int|
        0 <= i < answer.len() ==> (#[trigger] answer[i] matches Ok(row) && drawn_edge(row@) == Some(
            edges[i]@,
        ))
}

fn read_node_row(row: &Vec<Cell>) -> (r: Option<GraphNodeDto>)
    ensures
        match r {
            Some(node) => drawn_node(row@) == Some(node@),
            None => drawn_node(row@) is None,
        },
{
    match (
        read_text(row, 0),
        read_text(row, 1),
        read_text(row, 2),
        read_text(row, 3),
        read_int(row, 4),
    ) {
        (Some(id), Some(label), Some(file_path), Some(symbol_type), Some(degree)) => Some(
            GraphNodeDto { id, label, file_path, symbol_type, degree },
        ),
        _ => None,
    }
}

fn read_edge_row(row: &Vec<Cell>) -> (r: Option<GraphEdgeDto>)
    ensures
        match r {
            Some(edge) => drawn_edge(row@) == Some(edge@),
            None => drawn_edge(row@) is None,
        },
{
    match (read_text(row, 0), read_text(row, 1), read_text(row, 2)) {
        (Some(source), Some(target), Some(relationship)) => Some(
            GraphEdgeDto { source, target, relationship },
        ),
        _ => None,
    }
}

/// The symbols of an answer, or why one of them cannot be read.
pub(crate) fn read_graph_nodes(answer: Answer) -> (r: Result<Vec<GraphNodeDto>, MarrowError>)
    requires
        store::all_fit(answer@, node_kinds()),
    ensures
        match r {
            Ok(nodes) => are_nodes(nodes@, answer@),
            Err(e) => exists|i: int|
                0 <= i < answer.len() && #[trigger] store::is_failure(e, answer@[i]),
        },
{
    let mut out: Vec<GraphNodeDto> = Vec::new();
    let mut i: usize = 0;
    while i < answer.len()
        invariant
            i <= answer.len(),
            store::all_fit(answer@, node_kinds()),
            out.len() == i,
            forall|k: int|
                0 <= k < i ==> (#[trigger] answer@[k] matches Ok(row) && drawn_node(row@) == Some(
                    out@[k]@,
                )),
        decreases answer.len() - i,
    {
        let node = match &answer[i] {
            Ok(row) => read_node_row(row),
            Err(_) => None,
        };
        match node {
            Some(node) => {
                out.push(node);
            },
            None => {
                let ghost whole = answer@;
                proof {
                    if whole[i as int] is Ok {
                        lemma_fitting_rows_are_nodes(whole[i as int]->Ok_0@);
                    }
                }
                let e = failure_at(answer, i);
                assert(store::is_failure(e, whole[i as int]));
                return Err(e);
            },
        }
        i += 1;
    }
    Ok(out)
}

/// The edges of an answer, or why one of them cannot be read.
pub(crate) fn read_graph_edges(answer: Answer) -> (r: Result<Vec<GraphEdgeDto>, MarrowError>)
    requires
        store::all_fit(answer@, store::texts_only(3)),
    ensures
        match r {
            Ok(edges) => are_edges(edges@, answer@),
            Err(e) => exists|i: int|
                0 <= i < answer.len() && #[trigger] store::is_failure(e, answer@[i]),
        },
{
    let mut out: Vec<GraphEdgeDto> = Vec::new();
    let mut i: usize = 0;
    while i < answer.len()
        invariant
            i <= answer.len(),
            store::all_fit(answer@, store::texts_only(3)),
            out.len() == i,
            forall|k: int|
                0 <= k < i ==> (#[trigger] answer@[k] matches Ok(row) && drawn_edge(row@) == Some(
                    out@[k]@,
                )),
        decreases answer.len() - i,
    {
        let edge = match &answer[i] {
            Ok(row) => read_edge_row(row),
            Err(_) => None,
        };
        match edge {
            Some(edge) => {
                out.push(edge);
            },
            None => {
                let ghost whole = answer@;
                proof {
                    if whole[i as int] is Ok {
                        lemma_fitting_rows_are_edges(whole[i as int]->Ok_0@);
                    }
                }
                let e = failure_at(answer, i);
                assert(store::is_failure(e, whole[i as int]));
                return Err(e);
            },
        }
        i += 1;
    }
    Ok(out)
}

/// Whether a snapshot shows nothing but a state.
pub open spec fn is_empty_snapshot(
    snap: GraphSnapshot,
    workspace: Seq<char>,
    repo: Option<Seq<char>>,
    status: WorkspaceStatus,
    error: Option<Seq<char>>,
) -> bool {
    &&& snap.nodes@.len() == 0
    &&& snap.edges@.len() == 0
    &&& !snap.truncated
    &&& snap.total_node_count == 0
    &&& snap.workspace_id@ == workspace
    &&& text::opt_text(snap.repo_id) == repo
    &&& snap.status == status
    &&& text::opt_text(snap.error) == error
}

/// A snapshot that shows nothing but a state.
pub fn empty_graph_snapshot(
    workspace_id: String,
    repo_id: Option<String>,
    status: WorkspaceStatus,
    error: Option<String>,
) -> (r: GraphSnapshot)
    ensures
        is_empty_snapshot(
            r,
            workspace_id@,
            text::opt_text(repo_id),
            status,
            text::opt_text(error),
        ),
{
    GraphSnapshot {
        nodes: Vec::new(),
        edges: Vec::new(),
        truncated: false,
        total_node_count: 0,
        workspace_id,
        repo_id,
        status,
        error,
    }
}

/// Whether a snapshot shows nothing but the state that a failure tells of.
pub open spec fn is_failed_snapshot(
    snap: GraphSnapshot,
    workspace: Seq<char>,
    repo: Option<Seq<char>>,
    failure: MarrowError,
) -> bool {
    snap.error matches Some(m) && failure.says(m@) && is_empty_snapshot(
        snap,
        workspace,
        repo,
        failure_status(scan::lowercase(m@)),
        Some(m@),
    )
}

fn failed_snapshot(workspace_id: String, repo_id: Option<String>, failure: &MarrowError) -> (r:
    GraphSnapshot)
    ensures
        is_failed_snapshot(r, workspace_id@, text::opt_text(repo_id), *failure),
{
    let (status, error) = classify_error(&failure.text());
    empty_graph_snapshot(workspace_id, repo_id, status, error)
}

/// Whether a database could choose a repository: the one that is asked for, or else
/// the first one that holds anything.
pub open spec fn could_choose(
    db: rusqlite::Connection,
    asked: Option<Seq<char>>,
    chosen: Option<Seq<char>>,
) -> bool {
    if asked matches Some(repo) && repo.len() > 0 {
        chosen == asked
    } else {
        exists|answer: Seq<Result<Vec<Cell>, rusqlite::Error>>|
            {
                &&& #[trigger] store::could_read(
                    db,
                    FIRST_REPO_SQL@,
                    store::texts_only(1),
                    Seq::empty(),
                    answer,
                )
                &&& match chosen {
                    Some(repo) => store::first_text(answer) == Some(repo),
                    None => answer.len() == 0,
                }
            }
    }
}

/// Whether choosing a repository could fail so: the one that is asked for needs no
/// choice, and else the database refuses the question or the first row cannot be read.
pub open spec fn could_not_choose(
    db: rusqlite::Connection,
    asked: Option<Seq<char>>,
    e: MarrowError,
) -> bool {
    &&& !(asked matches Some(repo) && repo.len() > 0)
    &&& {
        ||| e matches MarrowError::Store(why) && store::could_decline(
            db,
            FIRST_REPO_SQL@,
            store::texts_only(1),
            Seq::empty(),
            why,
        )
        ||| exists|answer: Seq<Result<Vec<Cell>, rusqlite::Error>>|
            {
                &&& #[trigger] store::could_read(
                    db,
                    FIRST_REPO_SQL@,
                    store::texts_only(1),
                    Seq::empty(),
                    answer,
                )
                &&& answer.len() > 0
                &&& store::is_failure(e, answer[0])
            }
    }
}

/// The number of symbols that a snapshot asks for.
pub open spec fn snapshot_cap(limit: usize) -> usize {
    if limit == 0 {
        1
    } else {
        limit
    }
}

/// Whether a database could lead to this snapshot of a repository.
pub open spec fn could_draw(
    db: rusqlite::Connection,
    repo: Seq<char>,
    cap: usize,
    snap: GraphSnapshot,
) -> bool {
    exists|
        nodes: Seq<Result<Vec<Cell>, rusqlite::Error>>,
        edges: Seq<Result<Vec<Cell>, rusqlite::Error>>,
    |
        {
            &&& store::could_count(
                db,
                REPO_COUNT_SQL@,
                store::one_text(repo),
                snap.total_node_count,
            )
            &&& snap.truncated == (snap.total_node_count > cap as i64)
            &&& #[trigger] store::could_read(
                db,
                GRAPH_NODES_SQL@,
                node_kinds(),
                store::text_and_number(repo, cap as i64 as int),
                nodes,
            )
            &&& are_nodes(snap.nodes@, nodes)
            &&& #[trigger] store::could_read(
                db,
                GRAPH_EDGES_SQL@,
                store::texts_only(3),
                store::text_and_number(repo, cap as i64 as int),
                edges,
            )
            &&& are_edges(snap.edges@, edges)
        }
}

/// A snapshot draws a symbol for every row of symbols and an edge for every row of edges
/// that the database could yield for the repository, in order and column by column, and
/// says that it is cut when there are more symbols than were asked for.
pub proof fn law_snapshots_draw_every_row(
    db: rusqlite::Connection,
    repo: Seq<char>,
    cap: usize,
    snap: GraphSnapshot,
)
    requires
        could_draw(db, repo, cap, snap),
        cap <= i64::MAX,
    ensures
        snap.truncated <==> snap.total_node_count > cap,
        exists|
            nodes: Seq<Result<Vec<Cell>, rusqlite::Error>>,
            edges: Seq<Result<Vec<Cell>, rusqlite::Error>>,
        |
            {
                &&& #[trigger] store::could_read(
                    db,
                    GRAPH_NODES_SQL@,
                    node_kinds(),
                    store::text_and_number(repo, cap as int),
                    nodes,
                )
                &&& #[trigger] store::could_read(
                    db,
                    GRAPH_EDGES_SQL@,
                    store::texts_only(3),
                    store::text_and_number(repo, cap as int),
                    edges,
                )
                &&& snap.nodes@.len() == nodes.len()
                &&& snap.edges@.len() == edges.len()
                &&& forall|i: int|
                    0 <= i < nodes.len() ==> (#[trigger] nodes[i] matches Ok(row) && {
                        &&& row@[0] matches Cell::Text(s) && s@ == snap.nodes@[i]@.id
                        &&& row@[1] matches Cell::Text(s) && s@ == snap.nodes@[i]@.label
                        &&& row@[2] matches Cell::Text(s) && s@ == snap.nodes@[i]@.file
                        &&& row@[3] matches Cell::Text(s) && s@ == snap.nodes@[i]@.kind
                        &&& row@[4] matches Cell::Int(n) && n == snap.nodes@[i]@.degree
                    })
                &&& forall|i: int|
                    0 <= i < edges.len() ==> (#[trigger] edges[i] matches Ok(row) && {
                        &&& row@[0] matches Cell::Text(s) && s@ == snap.edges@[i]@.source
                        &&& row@[1] matches Cell::Text(s) && s@ == snap.edges@[i]@.target
                        &&& row@[2] matches Cell::Text(s) && s@ == snap.edges@[i]@.relationship
                    })
            },
{
    let (nodes, edges) = choose|
        nodes: Seq<Result<Vec<Cell>, rusqlite::Error>>,
        edges: Seq<Result<Vec<Cell>, rusqlite::Error>>,
    |
        {
            &&& store::could_count(
                db,
                REPO_COUNT_SQL@,
                store::one_text(repo),
                snap.total_node_count,
            )
            &&& snap.truncated == (snap.total_node_count > cap as i64)
            &&& #[trigger] store::could_read(
                db,
                GRAPH_NODES_SQL@,
                node_kinds(),
                store::text_and_number(repo, cap as i64 as int),
                nodes,
            )
            &&& are_nodes(snap.nodes@, nodes)
            &&& #[trigger] store::could_read(
                db,
                GRAPH_EDGES_SQL@,
                store::texts_only(3),
                store::text_and_number(repo, cap as i64 as int),
                edges,
            )
            &&& are_edges(snap.edges@, edges)
        };
    assert forall|i: int| 0 <= i < nodes.len() implies (#[trigger] nodes[i] matches Ok(row) && {
        &&& row@[0] matches Cell::Text(s) && s@ == snap.nodes@[i]@.id
        &&& row@[1] matches Cell::Text(s) && s@ == snap.nodes@[i]@.label
        &&& row@[2] matches Cell::Text(s) && s@ == snap.nodes@[i]@.file
        &&& row@[3] matches Cell::Text(s) && s@ == snap.nodes@[i]@.kind
        &&& row@[4] matches Cell::Int(n) && n == snap.nodes@[i]@.degree
    }) by {
        assert(drawn_node(nodes[i]->Ok_0@) == Some(snap.nodes@[i]@));
    }
    assert forall|i: int| 0 <= i < edges.len() implies (#[trigger] edges[i] matches Ok(row) && {
        &&& row@[0] matches Cell::Text(s) && s@ == snap.edges@[i]@.source
        &&& row@[1] matches Cell::Text(s) && s@ == snap.edges@[i]@.target
        &&& row@[2] matches Cell::Text(s) && s@ == snap.edges@[i]@.relationship
    }) by {
        assert(drawn_edge(edges[i]->Ok_0@) == Some(snap.edges@[i]@));
    }
}

/// Whether drawing a repository could fail so: its symbols cannot be counted, or its
/// nodes or edges cannot be read.
pub open spec fn could_not_draw(
    db: rusqlite::Connection,
    repo: Seq<char>,
    cap: usize,
    e: MarrowError,
) -> bool {
    let asked = store::text_and_number(repo, cap as i64 as int);
    ||| store::could_not_count(db, REPO_COUNT_SQL@, store::one_text(repo), e)
    ||| store::could_not_read(db, GRAPH_NODES_SQL@, node_kinds(), asked, e)
    ||| store::could_not_read(db, GRAPH_EDGES_SQL@, store::texts_only(3), asked, e)
}

/// Whether a readable database could lead to this snapshot.
pub open spec fn could_show(
    db: rusqlite::Connection,
    workspace: Seq<char>,
    status: WorkspaceStatus,
    error: Option<Seq<char>>,
    asked: Option<Seq<char>>,
    cap: usize,
    snap: GraphSnapshot,
) -> bool {
    ||| exists|e: MarrowError| #[trigger]
        is_failed_snapshot(snap, workspace, None, e) && could_not_choose(db, asked, e)
    ||| exists|chosen: Option<Seq<char>>|
        #[trigger] could_choose(db, asked, chosen) && match chosen {
            None => is_empty_snapshot(snap, workspace, None, WorkspaceStatus::Empty, None),
            Some(repo) => (exists|e: MarrowError| #[trigger]
                is_failed_snapshot(snap, workspace, Some(repo), e) && could_not_draw(
                    db,
                    repo,
                    cap,
                    e,
                )) || {
                &&& snap.workspace_id@ == workspace
                &&& text::opt_text(snap.repo_id) == Some(repo)
                &&& snap.status == status
                &&& text::opt_text(snap.error) == error
                &&& could_draw(db, repo, cap, snap)
            },
        }
}

/// A snapshot that shows anything is of the repository that was asked for, or, where none
/// was, of the first one that the database could name with anything in it.
pub proof fn law_snapshots_are_of_the_chosen_repository(
    db: rusqlite::Connection,
    workspace: Seq<char>,
    status: WorkspaceStatus,
    error: Option<Seq<char>>,
    asked: Option<Seq<char>>,
    cap: usize,
    snap: GraphSnapshot,
)
    requires
        could_show(db, workspace, status, error, asked, cap, snap),
        snap.nodes@.len() > 0,
    ensures
        snap.workspace_id@ == workspace,
        snap.status == status,
        snap.repo_id matches Some(repo) && could_draw(db, repo@, cap, snap),
        asked matches Some(repo) && repo.len() > 0 ==> text::opt_text(snap.repo_id) == asked,
        !(asked matches Some(repo) && repo.len() > 0) ==> exists|
            answer: Seq<Result<Vec<Cell>, rusqlite::Error>>,
        | #[trigger]
            store::could_read(
                db,
                "SELECT id FROM repositories WHERE EXISTS (SELECT 1 FROM nodes WHERE repo_id = repositories.id) OR EXISTS (SELECT 1 FROM files WHERE repo_id = repositories.id) ORDER BY id ASC LIMIT 1"@,
                store::texts_only(1),
                Seq::empty(),
                answer,
            ) && store::first_text(answer) == text::opt_text(snap.repo_id),
{
}

fn choose_repo(conn: &rusqlite::Connection, asked: Option<&str>) -> (r: Result<
    Option<String>,
    MarrowError,
>)
    ensures
        match r {
            Ok(chosen) => could_choose(*conn, text::opt_str(asked), text::opt_text(chosen)),
            Err(e) => could_not_choose(*conn, text::opt_str(asked), e),
        },
{
    match asked {
        Some(repo) => if !repo.is_empty() {
            return Ok(Some(repo.to_owned()));
        },
        None => {},
    }
    let params: Vec<Param> = Vec::new();
    assert(store::bounds(params@) =~= Seq::empty());
    let answer = match read_as(conn, FIRST_REPO_SQL, as_texts(1), params) {
        Ok(answer) => answer,
        Err(e) => {
            return Err(MarrowError::Store(e));
        },
    };
    assert(store::could_read(
        *conn,
        FIRST_REPO_SQL@,
        store::texts_only(1),
        Seq::empty(),
        answer@,
    ));
    if answer.len() == 0 {
        return Ok(None);
    }
    match store::read_first_text(&answer) {
        Some(repo) => Ok(Some(repo)),
        None => {
            proof {
                if answer@[0] is Ok {
                    let row = answer@[0]->Ok_0@;
                    assert(store::fits(row, store::texts_only(1)));
                    assert(store::suits(row[0], store::texts_only(1)[0]));
                }
            }
            Err(failure_at(answer, 0))
        },
    }
}

fn count_symbols(conn: &rusqlite::Connection, repo_id: &str) -> (r: Result<i64, MarrowError>)
    ensures
        match r {
            Ok(n) => store::could_count(*conn, REPO_COUNT_SQL@, store::one_text(repo_id@), n),
            Err(e) => store::could_not_count(
                *conn,
                REPO_COUNT_SQL@,
                store::one_text(repo_id@),
                e,
            ),
        },
{
    count(conn, REPO_COUNT_SQL, bind_one(repo_id))
}

/// The most connected symbols of a repository.
pub fn query_graph_nodes(conn: &rusqlite::Connection, repo_id: &str, limit: usize) -> (r: Result<
    Vec<GraphNodeDto>,
    MarrowError,
>)
    ensures
        r matches Ok(v) ==> exists|answer: Seq<Result<Vec<Cell>, rusqlite::Error>>|
            #[trigger] store::could_read(
                *conn,
                GRAPH_NODES_SQL@,
                node_kinds(),
                store::text_and_number(repo_id@, limit as i64 as int),
                answer,
            ) && are_nodes(v@, answer),
        r matches Err(e) ==> store::could_not_read(
            *conn,
            GRAPH_NODES_SQL@,
            node_kinds(),
            store::text_and_number(repo_id@, limit as i64 as int),
            e,
        ),
{
    match read_as(
        conn,
        GRAPH_NODES_SQL,
        as_node(),
        bind_text_and_number(repo_id, limit as i64),
    ) {
        Ok(answer) => {
            assert(store::could_read(
                *conn,
                GRAPH_NODES_SQL@,
                node_kinds(),
                store::text_and_number(repo_id@, limit as i64 as int),
                answer@,
            ));
            read_graph_nodes(answer)
        },
        Err(e) => Err(MarrowError::Store(e)),
    }
}

/// The edges among the most connected symbols of a repository.
pub fn query_graph_edges(conn: &rusqlite::Connection, repo_id: &str, limit: usize) -> (r: Result<
    Vec<GraphEdgeDto>,
    MarrowError,
>)
    ensures
        r matches Ok(v) ==> exists|answer: Seq<Result<Vec<Cell>, rusqlite::Error>>|
            #[trigger] store::could_read(
                *conn,
                GRAPH_EDGES_SQL@,
                store::texts_only(3),
                store::text_and_number(repo_id@, limit as i64 as int),
                answer,
            ) && are_edges(v@, answer),
        r matches Err(e) ==> store::could_not_read(
            *conn,
            GRAPH_EDGES_SQL@,
            store::texts_only(3),
            store::text_and_number(repo_id@, limit as i64 as int),
            e,
        ),
{
    match read_as(
        conn,
        GRAPH_EDGES_SQL,
        as_texts(3),
        bind_text_and_number(repo_id, limit as i64),
    ) {
        Ok(answer) => {
            assert(store::could_read(
                *conn,
                GRAPH_EDGES_SQL@,
                store::texts_only(3),
                store::text_and_number(repo_id@, limit as i64 as int),
                answer@,
            ));
            read_graph_edges(answer)
        },
        Err(e) => Err(MarrowError::Store(e)),
    }
}

fn draw_repo(
    conn: &rusqlite::Connection,
    workspace_id: &str,
    repo_id: &str,
    cap: usize,
    status: WorkspaceStatus,
    error: Option<String>,
) -> (r: Result<GraphSnapshot, MarrowError>)
    ensures
        match r {
            Ok(snap) => {
                &&& snap.workspace_id@ == workspace_id@
                &&& text::opt_text(snap.repo_id) == Some(repo_id@)
                &&& snap.status == status
                &&& text::opt_text(snap.error) == text::opt_text(error)
                &&& could_draw(*conn, repo_id@, cap, snap)
            },
            Err(e) => could_not_draw(*conn, repo_id@, cap, e),
        },
{
    let total_node_count: i64 = match count_symbols(conn, repo_id) {
        Ok(n) => n,
        Err(e) => {
            return Err(e);
        },
    };
    let nodes = match query_graph_nodes(conn, repo_id, cap) {
        Ok(nodes) => nodes,
        Err(e) => {
            return Err(e);
        },
    };
    let edges = match query_graph_edges(conn, repo_id, cap) {
        Ok(edges) => edges,
        Err(e) => {
            return Err(e);
        },
    };
    Ok(
        GraphSnapshot {
            truncated: total_node_count > cap as i64,
            total_node_count,
            nodes,
            edges,
            workspace_id: workspace_id.to_owned(),
            repo_id: Some(repo_id.to_owned()),
            status,
            error,
        },
    )
}

impl Registry {
    /// The graph of a registered workspace, of the repository that is asked for or of the
    /// first one that holds anything. `graph` is the workspace's database, or why it could
    /// not be opened; it is not looked at where `probe` shows that it cannot be read.
    pub fn graph_snapshot(
        entry: &WorkspaceEntry,
        probe: &DbProbe,
        graph: Result<&rusqlite::Connection, String>,
        repo_id: Option<&str>,
        limit: usize,
    ) -> (r: GraphSnapshot)
        ensures
            !probed_status(*probe).readable() ==> is_empty_snapshot(
                r,
                entry@.id,
                None,
                probed_status(*probe),
                probed_error(*probe),
            ),
            probed_status(*probe).readable() ==> match graph {
                Err(m) => is_empty_snapshot(
                    r,
                    entry@.id,
                    None,
                    failure_status(scan::lowercase(m@)),
                    Some(m@),
                ),
                Ok(conn) => could_show(
                    *conn,
                    entry@.id,
                    probed_status(*probe),
                    probed_error(*probe),
                    text::opt_str(repo_id),
                    snapshot_cap(limit),
                    r,
                ),
            },
    {
        let (status, error) = classify_workspace_db(probe);
        let id = entry.workspace_id.clone();
        if !status.is_readable() {
            return empty_graph_snapshot(id, None, status, error);
        }
        let conn: &rusqlite::Connection = match graph {
            Ok(conn) => conn,
            Err(m) => {
                let (status, error) = classify_error(&m);
                return empty_graph_snapshot(id, None, status, error);
            },
        };
        let chosen = match choose_repo(conn, repo_id) {
            Ok(chosen) => chosen,
            Err(e) => {
                return failed_snapshot(id, None, &e);
            },
        };
        assert(could_choose(*conn, text::opt_str(repo_id), text::opt_text(chosen)));
        let selected = match chosen {
            Some(repo) => repo,
            None => {
                return empty_graph_snapshot(id, None, WorkspaceStatus::Empty, None);
            },
        };
        let cap: usize = if limit == 0 {
            1
        } else {
            limit
        };
        match draw_repo(conn, &id, &selected, cap, status, error) {
            Ok(snap) => snap,
            Err(e) => failed_snapshot(id, Some(selected), &e),
        }
    }
}

} // verus!
