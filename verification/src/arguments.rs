//! Reading the arguments of a tool call.
use crate::json;
use crate::json::{get, get_text, Json, Member, Value};
use crate::model::{BatchIntent, BatchQuery, DependencyDirection, DependencyGraphOptions};
use crate::settings::Settings;
use crate::symbols::FIND_SYMBOL_DEFAULT_LIMIT;
use crate::text;
use crate::text::count_text;
use vstd::prelude::*;
use vstd::string::*;

verus! {

/// A result with the text of its refusal.
pub open spec fn said<T>(r: Result<T, String>) -> Result<T, Seq<char>> {
    match r {
        Ok(v) => Ok(v),
        Err(m) => Err(m@),
    }
}

/// An argument that may be missing, as a text of its own.
pub fn optional_text(args: &Vec<Member>, key: &str) -> (r: Option<String>)
    ensures
        text::opt_text(r) == json::as_text(json::found(json::members(args@), key@)),
{
    match get_text(args, key) {
        Some(s) => Some(s.to_owned()),
        None => None,
    }
}

/// What is said of an argument that is not there.
pub open spec fn missing(key: Seq<char>) -> Seq<char> {
    "missing required argument: '"@ + key + "'"@
}

/// A text that has to be there.
pub open spec fn required_text(args: Seq<(Seq<char>, Value)>, key: Seq<char>) -> Result<
    Seq<char>,
    Seq<char>,
> {
    match json::as_text(json::found(args, key)) {
        Some(s) => Ok(s),
        None => Err(missing(key)),
    }
}

/// The texts of a result.
pub open spec fn texts_of(r: Result<String, String>) -> Result<Seq<char>, Seq<char>> {
    match r {
        Ok(s) => Ok(s@),
        Err(m) => Err(m@),
    }
}

/// A text that has to be there.
pub fn require_str(args: &Vec<Member>, key: &str) -> (r: Result<String, String>)
    ensures
        texts_of(r) == required_text(json::members(args@), key@),
{
    match get_text(args, key) {
        Some(s) => Ok(s.to_owned()),
        None => Err("missing required argument: '".to_owned().concat(key).concat("'")),
    }
}

// ── Numbers and flags ────────────────────────────────────────────────────────

/// The positive number that a value is.
pub open spec fn positive(v: Value) -> Option<usize> {
    match v {
        Value::Count(n) => if 0 < n <= usize::MAX {
            Some(n as usize)
        } else {
            None
        },
        _ => None,
    }
}

/// The positive number that a value is.
pub fn positive_number(v: &Json) -> (r: Option<usize>)
    ensures
        r == positive(v@),
{
    match v {
        Json::Count(n) => if 0 < *n && *n <= usize::MAX as u64 {
            Some(*n as usize)
        } else {
            None
        },
        _ => None,
    }
}

/// The positive number that an argument has to be.
pub open spec fn positive_argument(v: Value, label: Seq<char>) -> Result<usize, Seq<char>> {
    match positive(v) {
        Some(n) => Ok(n),
        None => Err("run_pipeline `"@ + label + "` must be a positive integer"@),
    }
}

/// The positive number that an argument has to be.
pub fn parse_positive_usize_value(value: &Json, label: &str) -> (r: Result<usize, String>)
    ensures
        said(r) == positive_argument(value@, label@),
{
    match positive_number(value) {
        Some(n) => Ok(n),
        None => Err(
            "run_pipeline `".to_owned().concat(label).concat("` must be a positive integer"),
        ),
    }
}

/// The positive number that an argument is where it is there.
pub open spec fn optional_positive(args: Seq<(Seq<char>, Value)>, key: Seq<char>) -> Result<
    Option<usize>,
    Seq<char>,
> {
    match json::found(args, key) {
        Some(v) => match positive_argument(v, key) {
            Ok(n) => Ok(Some(n)),
            Err(m) => Err(m),
        },
        None => Ok(None),
    }
}

/// The positive number that an argument is where it is there.
pub fn parse_optional_positive_usize(args: &Vec<Member>, key: &str) -> (r: Result<
    Option<usize>,
    String,
>)
    ensures
        said(r) == optional_positive(json::members(args@), key@),
{
    match get(args, key) {
        Some(v) => match parse_positive_usize_value(v, key) {
            Ok(n) => Ok(Some(n)),
            Err(m) => Err(m),
        },
        None => Ok(None),
    }
}

/// The flag that an argument is, off where it is not there.
pub open spec fn optional_flag(args: Seq<(Seq<char>, Value)>, key: Seq<char>) -> Result<
    bool,
    Seq<char>,
> {
    match json::found(args, key) {
        Some(Value::Bool(b)) => Ok(b),
        Some(_) => Err("run_pipeline `"@ + key + "` must be a boolean"@),
        None => Ok(false),
    }
}

/// The flag that an argument is, off where it is not there.
pub fn parse_optional_bool(args: &Vec<Member>, key: &str) -> (r: Result<bool, String>)
    ensures
        said(r) == optional_flag(json::members(args@), key@),
{
    match get(args, key) {
        Some(Json::Bool(b)) => Ok(*b),
        Some(_) => Err("run_pipeline `".to_owned().concat(key).concat("` must be a boolean")),
        None => Ok(false),
    }
}

/// The limit of a search.
pub open spec fn search_limit(args: Seq<(Seq<char>, Value)>) -> Result<usize, Seq<char>> {
    match json::found(args, "limit"@) {
        Some(v) => match positive(v) {
            Some(n) => Ok(n),
            None => Err("run_pipeline find_symbol `limit` must be a positive integer"@),
        },
        None => Ok(FIND_SYMBOL_DEFAULT_LIMIT),
    }
}

/// The limit of a search.
pub fn parse_find_symbol_limit(args: &Vec<Member>) -> (r: Result<usize, String>)
    ensures
        said(r) == search_limit(json::members(args@)),
{
    match get(args, "limit") {
        Some(v) => match positive_number(v) {
            Some(n) => Ok(n),
            None => Err(
                "run_pipeline find_symbol `limit` must be a positive integer".to_owned(),
            ),
        },
        None => Ok(FIND_SYMBOL_DEFAULT_LIMIT),
    }
}

// ── Graphs ───────────────────────────────────────────────────────────────────

/// The direction that an argument names, both where it is not there.
pub open spec fn direction_argument(v: Option<Value>) -> Result<DependencyDirection, Seq<char>> {
    match v {
        None => Ok(DependencyDirection::Both),
        Some(Value::Text(s)) => match DependencyDirection::named(s) {
            Some(d) => Ok(d),
            None => Err(DependencyDirection::refusal(s)),
        },
        Some(_) => Err("run_pipeline `direction` must be a string"@),
    }
}

/// The direction that an argument names, both where it is not there.
pub fn parse_dependency_direction(value: Option<&Json>) -> (r: Result<DependencyDirection, String>)
    ensures
        said(r) == direction_argument(json::opt_value(value)),
{
    match value {
        None => Ok(DependencyDirection::Both),
        Some(Json::Text(s)) => match DependencyDirection::parse(s) {
            Ok(d) => Ok(d),
            Err(e) => Err(e.text()),
        },
        Some(_) => Err("run_pipeline `direction` must be a string".to_owned()),
    }
}

/// What a graph is asked for with.
pub open spec fn graph_options(args: Seq<(Seq<char>, Value)>, limits: Settings) -> Result<
    DependencyGraphOptions,
    Seq<char>,
> {
    match optional_positive(args, "depth"@) {
        Err(m) => Err(m),
        Ok(depth) => {
            let depth = match depth {
                Some(n) => n,
                None => 2,
            };
            if depth > 5 {
                Err("run_pipeline `depth` must be between 1 and 5"@)
            } else {
                match (
                    direction_argument(json::found(args, "direction"@)),
                    optional_flag(args, "include_source"@),
                    optional_positive(args, "max_nodes"@),
                ) {
                    (Err(m), _, _) => Err(m),
                    (_, Err(m), _) => Err(m),
                    (_, _, Err(m)) => Err(m),
                    (Ok(direction), Ok(include_source), Ok(max_nodes)) => Ok(
                        DependencyGraphOptions {
                            depth,
                            direction,
                            include_source,
                            max_nodes: match max_nodes {
                                Some(n) => n,
                                None => limits.graph_max_nodes,
                            },
                            max_bytes: limits.graph_max_bytes,
                        },
                    ),
                }
            }
        },
    }
}

/// What a graph is asked for with.
pub fn parse_dependency_graph_options(args: &Vec<Member>, limits: &Settings) -> (r: Result<
    DependencyGraphOptions,
    String,
>)
    ensures
        said(r) == graph_options(json::members(args@), *limits),
{
    let depth: usize = match parse_optional_positive_usize(args, "depth") {
        Ok(Some(n)) => n,
        Ok(None) => 2,
        Err(m) => {
            return Err(m);
        },
    };
    if depth > 5 {
        return Err("run_pipeline `depth` must be between 1 and 5".to_owned());
    }
    let direction = match parse_dependency_direction(get(args, "direction")) {
        Ok(direction) => direction,
        Err(m) => {
            return Err(m);
        },
    };
    let include_source = match parse_optional_bool(args, "include_source") {
        Ok(include_source) => include_source,
        Err(m) => {
            return Err(m);
        },
    };
    let max_nodes: usize = match parse_optional_positive_usize(args, "max_nodes") {
        Ok(Some(n)) => n,
        Ok(None) => limits.graph_max_nodes,
        Err(m) => {
            return Err(m);
        },
    };
    Ok(
        DependencyGraphOptions {
            depth,
            direction,
            include_source,
            max_nodes,
            max_bytes: limits.graph_max_bytes,
        },
    )
}

// ── Batches ──────────────────────────────────────────────────────────────────

/// The most queries that a batch may have.
pub const BATCH_MAX_QUERIES: usize = 20;

/// A query of a batch without its representation.
pub ghost struct QueryText {
    pub intent: BatchIntent,
    pub target: Seq<char>,
    pub filepath: Option<Seq<char>>,
    pub kind: Option<Seq<char>>,
    pub limit: Option<usize>,
    pub depth: Option<usize>,
    pub direction: Option<DependencyDirection>,
    pub include_source: bool,
    pub max_nodes: Option<usize>,
}

impl View for BatchQuery {
    type V = QueryText;

    open spec fn view(&self) -> QueryText {
        QueryText {
            intent: self.intent,
            target: self.target@,
            filepath: text::opt_text(self.filepath),
            kind: text::opt_text(self.kind),
            limit: self.limit,
            depth: self.depth,
            direction: self.direction,
            include_source: self.include_source,
            max_nodes: self.max_nodes,
        }
    }
}

/// The views of a list of queries.
pub open spec fn query_texts(v: Seq<BatchQuery>) -> Seq<QueryText> {
    Seq::new(v.len(), |i: int| v[i]@)
}

/// What is said of the query with this number.
pub open spec fn of_query(ordinal: nat, what: Seq<char>) -> Seq<char> {
    "run_pipeline explore_batch query "@ + text::decimal(ordinal) + what
}

fn blame_query(ordinal: usize, what: &str) -> (r: String)
    ensures
        r@ == of_query(ordinal as nat, what@),
{
    "run_pipeline explore_batch query ".to_owned().concat(&count_text(ordinal)).concat(what)
}

/// The intent that a query names.
pub open spec fn query_intent(object: Seq<(Seq<char>, Value)>, ordinal: nat) -> Result<
    BatchIntent,
    Seq<char>,
> {
    match json::as_text(json::found(object, "intent"@)) {
        None => Err(of_query(ordinal, " requires `intent`"@)),
        Some(name) => match BatchIntent::named(name) {
            Some(intent) => Ok(intent),
            None => Err(of_query(ordinal, " has invalid intent `"@ + name + "`"@)),
        },
    }
}

/// The target that a query names.
pub open spec fn query_target(object: Seq<(Seq<char>, Value)>, ordinal: nat) -> Result<
    Seq<char>,
    Seq<char>,
> {
    match json::as_text(json::found(object, "target"@)) {
        Some(target) => if target.len() > 0 {
            Ok(target)
        } else {
            Err(of_query(ordinal, " requires `target`"@))
        },
        None => Err(of_query(ordinal, " requires `target`"@)),
    }
}

/// The depth that a query asks for.
pub open spec fn query_depth(object: Seq<(Seq<char>, Value)>, ordinal: nat) -> Result<
    Option<usize>,
    Seq<char>,
> {
    match optional_positive(object, "depth"@) {
        Ok(Some(depth)) => if depth > 5 {
            Err(of_query(ordinal, " `depth` must be between 1 and 5"@))
        } else {
            Ok(Some(depth))
        },
        other => other,
    }
}

/// The query that an object is, or the first thing that is wrong with it.
pub open spec fn query_of(object: Seq<(Seq<char>, Value)>, ordinal: nat) -> Result<
    QueryText,
    Seq<char>,
> {
    match (
        query_intent(object, ordinal),
        query_target(object, ordinal),
        query_depth(object, ordinal),
        direction_argument(json::found(object, "direction"@)),
        optional_flag(object, "include_source"@),
        optional_positive(object, "limit"@),
        optional_positive(object, "max_nodes"@),
    ) {
        (Err(m), _, _, _, _, _, _) => Err(m),
        (_, Err(m), _, _, _, _, _) => Err(m),
        (_, _, Err(m), _, _, _, _) => Err(m),
        (_, _, _, Err(m), _, _, _) => Err(m),
        (_, _, _, _, Err(m), _, _) => Err(m),
        (_, _, _, _, _, Err(m), _) => Err(m),
        (_, _, _, _, _, _, Err(m)) => Err(m),
        (
            Ok(intent),
            Ok(target),
            Ok(depth),
            Ok(direction),
            Ok(include_source),
            Ok(limit),
            Ok(max_nodes),
        ) => Ok(
            QueryText {
                intent,
                target,
                filepath: json::as_text(json::found(object, "filepath"@)),
                kind: json::as_text(json::found(object, "kind"@)),
                limit,
                depth,
                direction: match json::found(object, "direction"@) {
                    Some(_) => Some(direction),
                    None => None,
                },
                include_source,
                max_nodes,
            },
        ),
    }
}

fn parse_query_intent(object: &Vec<Member>, ordinal: usize) -> (r: Result<BatchIntent, String>)
    ensures
        said(r) == query_intent(json::members(object@), ordinal as nat),
{
    match get_text(object, "intent") {
        None => Err(blame_query(ordinal, " requires `intent`")),
        Some(name) => match BatchIntent::parse(name) {
            Some(intent) => Ok(intent),
            None => {
                let what = " has invalid intent `".to_owned().concat(name).concat("`");
                Err(blame_query(ordinal, &what))
            },
        },
    }
}

fn parse_query_target(object: &Vec<Member>, ordinal: usize) -> (r: Result<String, String>)
    ensures
        texts_of(r) == query_target(json::members(object@), ordinal as nat),
{
    match get_text(object, "target") {
        Some(target) => if !target.is_empty() {
            Ok(target.to_owned())
        } else {
            Err(blame_query(ordinal, " requires `target`"))
        },
        None => Err(blame_query(ordinal, " requires `target`")),
    }
}

fn parse_query_depth(object: &Vec<Member>, ordinal: usize) -> (r: Result<Option<usize>, String>)
    ensures
        said(r) == query_depth(json::members(object@), ordinal as nat),
{
    match parse_optional_positive_usize(object, "depth") {
        Ok(Some(depth)) => if depth > 5 {
            Err(blame_query(ordinal, " `depth` must be between 1 and 5"))
        } else {
            Ok(Some(depth))
        },
        other => other,
    }
}

/// A query's outcome without its representation.
pub open spec fn query_said(r: Result<BatchQuery, String>) -> Result<QueryText, Seq<char>> {
    match r {
        Ok(q) => Ok(q@),
        Err(m) => Err(m@),
    }
}

/// The query that an object is, or the first thing that is wrong with it.
pub fn parse_batch_query(object: &Vec<Member>, ordinal: usize) -> (r: Result<BatchQuery, String>)
    ensures
        query_said(r) == query_of(json::members(object@), ordinal as nat),
{
    let intent = match parse_query_intent(object, ordinal) {
        Ok(intent) => intent,
        Err(m) => {
            return Err(m);
        },
    };
    let target = match parse_query_target(object, ordinal) {
        Ok(target) => target,
        Err(m) => {
            return Err(m);
        },
    };
    let depth = match parse_query_depth(object, ordinal) {
        Ok(depth) => depth,
        Err(m) => {
            return Err(m);
        },
    };
    let direction = match parse_dependency_direction(get(object, "direction")) {
        Ok(direction) => direction,
        Err(m) => {
            return Err(m);
        },
    };
    let include_source = match parse_optional_bool(object, "include_source") {
        Ok(include_source) => include_source,
        Err(m) => {
            return Err(m);
        },
    };
    let limit = match parse_optional_positive_usize(object, "limit") {
        Ok(limit) => limit,
        Err(m) => {
            return Err(m);
        },
    };
    let max_nodes = match parse_optional_positive_usize(object, "max_nodes") {
        Ok(max_nodes) => max_nodes,
        Err(m) => {
            return Err(m);
        },
    };
    Ok(
        BatchQuery {
            intent,
            target,
            filepath: optional_text(object, "filepath"),
            kind: optional_text(object, "kind"),
            limit,
            depth,
            direction: match get(object, "direction") {
                Some(_) => Some(direction),
                None => None,
            },
            include_source,
            max_nodes,
        },
    )
}

/// The query that the `i`th value of a list is.
pub open spec fn listed_query(list: Seq<Value>, i: int) -> Result<QueryText, Seq<char>> {
    match list[i] {
        Value::Object(object) => query_of(object, (i + 1) as nat),
        _ => Err(of_query((i + 1) as nat, " must be an object"@)),
    }
}

/// The first `n` queries of a list, or the first thing that is wrong with them.
pub open spec fn listed_queries(list: Seq<Value>, n: int) -> Result<Seq<QueryText>, Seq<char>>
    decreases n,
{
    if n <= 0 {
        Ok(Seq::empty())
    } else {
        match listed_queries(list, n - 1) {
            Ok(head) => match listed_query(list, n - 1) {
                Ok(q) => Ok(head.push(q)),
                Err(m) => Err(m),
            },
            Err(m) => Err(m),
        }
    }
}

/// The queries of a batch.
pub open spec fn batch_queries(args: Seq<(Seq<char>, Value)>) -> Result<Seq<QueryText>, Seq<char>> {
    match json::found(args, "queries"@) {
        Some(Value::List(list)) => if list.len() == 0 || list.len() > BATCH_MAX_QUERIES {
            Err("run_pipeline explore_batch requires 1 to 20 queries"@)
        } else {
            listed_queries(list, list.len() as int)
        },
        _ => Err("run_pipeline explore_batch requires a `queries` array"@),
    }
}

/// A batch's outcome without its representation.
pub open spec fn queries_said(r: Result<Vec<BatchQuery>, String>) -> Result<
    Seq<QueryText>,
    Seq<char>,
> {
    match r {
        Ok(v) => Ok(query_texts(v@)),
        Err(m) => Err(m@),
    }
}

fn parse_listed_query(value: &Json, ordinal: usize) -> (r: Result<BatchQuery, String>)
    ensures
        query_said(r) == match value@ {
            Value::Object(object) => query_of(object, ordinal as nat),
            _ => Err(of_query(ordinal as nat, " must be an object"@)),
        },
{
    proof {
        json::lemma_parts(*value);
    }
    match value {
        Json::Object(object) => parse_batch_query(object, ordinal),
        _ => Err(blame_query(ordinal, " must be an object")),
    }
}

proof fn lemma_first_error_stays(list: Seq<Value>, n: int, m: int)
    requires
        0 <= n <= m,
        listed_queries(list, n) is Err,
    ensures
        listed_queries(list, m) == listed_queries(list, n),
    decreases m - n,
{
    if n < m {
        lemma_first_error_stays(list, n, m - 1);
    }
}

fn parse_listed_queries(list: &Vec<Json>) -> (r: Result<Vec<BatchQuery>, String>)
    requires
        list.len() <= BATCH_MAX_QUERIES,
    ensures
        queries_said(r) == listed_queries(json::values(list@), list@.len() as int),
{
    let ghost all = json::values(list@);
    let mut out: Vec<BatchQuery> = Vec::new();
    let mut i: usize = 0;
    assert(query_texts(out@) =~= Seq::empty());
    while i < list.len()
        invariant
            i <= list.len(),
            list.len() <= BATCH_MAX_QUERIES,
            all == json::values(list@),
            listed_queries(all, i as int) == Ok::<Seq<QueryText>, Seq<char>>(query_texts(out@)),
        decreases list.len() - i,
    {
        assert(all[i as int] == list@[i as int]@);
        match parse_listed_query(&list[i], i + 1) {
            Ok(query) => {
                let ghost before = query_texts(out@);
                out.push(query);
                assert(query_texts(out@) =~= before.push(query@));
            },
            Err(m) => {
                proof {
                    lemma_first_error_stays(all, i + 1, list@.len() as int);
                }
                return Err(m);
            },
        }
        i += 1;
    }
    Ok(out)
}

/// The queries of a batch.
pub fn parse_batch_queries(args: &Vec<Member>) -> (r: Result<Vec<BatchQuery>, String>)
    ensures
        queries_said(r) == batch_queries(json::members(args@)),
{
    match get(args, "queries") {
        Some(value) => {
            proof {
                json::lemma_parts(*value);
            }
            match value {
                Json::List(list) => if list.len() == 0 || list.len() > BATCH_MAX_QUERIES {
                    Err("run_pipeline explore_batch requires 1 to 20 queries".to_owned())
                } else {
                    parse_listed_queries(list)
                },
                _ => Err("run_pipeline explore_batch requires a `queries` array".to_owned()),
            }
        },
        None => Err("run_pipeline explore_batch requires a `queries` array".to_owned()),
    }
}

/// Whether an argument is given as this positive number.
pub open spec fn is_given(args: Seq<(Seq<char>, Value)>, key: Seq<char>, n: usize) -> bool {
    json::found(args, key) matches Some(Value::Count(k)) && k == n && n > 0
}

/// A graph is asked for with what its arguments say: the depth, else two; the direction,
/// else both; the sources, else none; the number of nodes, else as many as are allowed. It
/// is refused exactly when one of them is not what it has to be.
pub proof fn law_graph_arguments_are_taken_as_given(
    args: Seq<(Seq<char>, Value)>,
    limits: Settings,
)
    ensures
        graph_options(args, limits) matches Ok(o) ==> {
            &&& json::found(args, "depth"@) is None ==> o.depth == 2
            &&& json::found(args, "depth"@) is Some ==> is_given(args, "depth"@, o.depth)
                && o.depth <= 5
            &&& json::found(args, "direction"@) is None ==> o.direction
                == DependencyDirection::Both
            &&& json::found(args, "direction"@) matches Some(v) ==> v == Value::Text(
                o.direction.name(),
            )
            &&& json::found(args, "include_source"@) is None ==> !o.include_source
            &&& json::found(args, "include_source"@) matches Some(v) ==> v == Value::Bool(
                o.include_source,
            )
            &&& json::found(args, "max_nodes"@) is None ==> o.max_nodes == limits.graph_max_nodes
            &&& json::found(args, "max_nodes"@) is Some ==> is_given(
                args,
                "max_nodes"@,
                o.max_nodes,
            )
            &&& o.max_bytes == limits.graph_max_bytes
        },
        graph_options(args, limits) is Err ==> {
            ||| json::found(args, "depth"@) matches Some(v) && !(v matches Value::Count(n) && 1 <= n
                <= 5)
            ||| json::found(args, "direction"@) matches Some(v) && !(v matches Value::Text(s)
                && DependencyDirection::named(s) is Some)
            ||| json::found(args, "include_source"@) matches Some(v) && !(v is Bool)
            ||| json::found(args, "max_nodes"@) matches Some(v) && positive(v) is None
        },
{
    if let Ok(o) = graph_options(args, limits) {
        if let Some(Value::Text(s)) = json::found(args, "direction"@) {
            crate::model::law_directions_go_by_their_names(s);
        }
    }
}

/// A query of a batch is what its object says: what it asks and about what, and every other
/// field as it is given, absent where it is absent.
pub proof fn law_queries_are_taken_as_given(object: Seq<(Seq<char>, Value)>, ordinal: nat)
    ensures
        query_of(object, ordinal) matches Ok(q) ==> {
            &&& json::found(object, "intent"@) matches Some(Value::Text(name))
                && BatchIntent::named(name) == Some(q.intent)
            &&& json::found(object, "target"@) == Some(Value::Text(q.target)) && q.target.len() > 0
            &&& q.filepath == (match json::found(object, "filepath"@) {
                Some(Value::Text(s)) => Some(s),
                _ => None,
            })
            &&& q.kind == (match json::found(object, "kind"@) {
                Some(Value::Text(s)) => Some(s),
                _ => None,
            })
            &&& q.limit is Some <==> json::found(object, "limit"@) is Some
            &&& q.limit matches Some(n) ==> is_given(object, "limit"@, n)
            &&& q.depth is Some <==> json::found(object, "depth"@) is Some
            &&& q.depth matches Some(n) ==> is_given(object, "depth"@, n) && n <= 5
            &&& q.direction is Some <==> json::found(object, "direction"@) is Some
            &&& q.direction matches Some(d) ==> json::found(object, "direction"@) == Some(
                Value::Text(d.name()),
            )
            &&& q.include_source <==> json::found(object, "include_source"@) == Some(
                Value::Bool(true),
            )
            &&& q.max_nodes is Some <==> json::found(object, "max_nodes"@) is Some
            &&& q.max_nodes matches Some(n) ==> is_given(object, "max_nodes"@, n)
        },
{
    if let Some(Value::Text(s)) = json::found(object, "direction"@) {
        crate::model::law_directions_go_by_their_names(s);
    }
}

/// A batch has a query for every object of its list, in order, each counted from one; it
/// is refused for the first that is none, in that one's words.
pub proof fn law_batches_have_a_query_for_each_object(args: Seq<(Seq<char>, Value)>)
    ensures
        batch_queries(args) matches Ok(qs) ==> (json::found(args, "queries"@) matches Some(
            Value::List(list),
        ) && qs.len() == list.len() && forall|i: int|
            0 <= i < list.len() ==> ((#[trigger] list[i]) matches Value::Object(o) && query_of(
                o,
                (i + 1) as nat,
            ) == Ok::<QueryText, Seq<char>>(qs[i]))),
        json::found(args, "queries"@) matches Some(Value::List(list)) ==> 1 <= list.len() <= 20
            ==> (batch_queries(args) matches Err(m) ==> exists|i: int|
                {
                    &&& 0 <= i < list.len()
                    &&& #[trigger] listed_query(list, i) == Err::<QueryText, Seq<char>>(m)
                    &&& forall|j: int| 0 <= j < i ==> #[trigger] listed_query(list, j) is Ok
                }),
{
    if let Some(Value::List(list)) = json::found(args, "queries"@) {
        lemma_listed_each(list, list.len() as int);
        if let Ok(qs) = batch_queries(args) {
            assert forall|i: int| 0 <= i < list.len() implies ((#[trigger] list[i]) matches Value::Object(
                o,
            ) && query_of(o, (i + 1) as nat) == Ok::<QueryText, Seq<char>>(qs[i])) by {
                assert(listed_query(list, i) == Ok::<QueryText, Seq<char>>(qs[i]));
            }
        }
    }
}

proof fn lemma_listed_each(list: Seq<Value>, n: int)
    requires
        0 <= n <= list.len(),
    ensures
        match listed_queries(list, n) {
            Ok(qs) => qs.len() == n && forall|i: int|
                0 <= i < n ==> #[trigger] listed_query(list, i) == Ok::<QueryText, Seq<char>>(
                    qs[i],
                ) && list[i] is Object,
            Err(m) => exists|i: int|
                {
                    &&& 0 <= i < n
                    &&& #[trigger] listed_query(list, i) == Err::<QueryText, Seq<char>>(m)
                    &&& forall|j: int| 0 <= j < i ==> #[trigger] listed_query(list, j) is Ok
                },
        },
    decreases n,
{
    if n > 0 {
        lemma_listed_each(list, n - 1);
        if let Ok(head) = listed_queries(list, n - 1) {
            assert(forall|j: int| 0 <= j < n - 1 ==> #[trigger] listed_query(list, j) is Ok);
            assert(listed_query(list, n - 1) == listed_query(list, n - 1));
        }
    }
}

/// A batch that is accepted has between one and twenty queries, each with a target, and
/// none with a depth out of range.
pub proof fn law_accepted_batches_are_in_range(args: Seq<(Seq<char>, Value)>)
    requires
        batch_queries(args) is Ok,
    ensures
        1 <= batch_queries(args)->Ok_0.len() <= BATCH_MAX_QUERIES,
        forall|i: int|
            #![trigger batch_queries(args)->Ok_0[i]]
            0 <= i < batch_queries(args)->Ok_0.len() ==> {
                let q = batch_queries(args)->Ok_0[i];
                q.target.len() > 0 && (q.depth matches Some(d) ==> 1 <= d <= 5)
            },
{
    let list = json::found(args, "queries"@)->Some_0->List_0;
    lemma_listed_in_range(list, list.len() as int);
}

proof fn lemma_listed_in_range(list: Seq<Value>, n: int)
    requires
        0 <= n <= list.len(),
        listed_queries(list, n) is Ok,
    ensures
        listed_queries(list, n)->Ok_0.len() == n,
        forall|i: int|
            #![trigger listed_queries(list, n)->Ok_0[i]]
            0 <= i < n ==> {
                let q = listed_queries(list, n)->Ok_0[i];
                q.target.len() > 0 && (q.depth matches Some(d) ==> 1 <= d <= 5)
            },
    decreases n,
{
    if n > 0 {
        lemma_listed_in_range(list, n - 1);
        let head = listed_queries(list, n - 1)->Ok_0;
        let last = listed_query(list, n - 1)->Ok_0;
        assert(listed_queries(list, n)->Ok_0 == head.push(last));
        assert forall|i: int| #![trigger listed_queries(list, n)->Ok_0[i]] 0 <= i < n implies {
            let q = listed_queries(list, n)->Ok_0[i];
            q.target.len() > 0 && (q.depth matches Some(d) ==> 1 <= d <= 5)
        } by {
            if i < n - 1 {
                assert(head.push(last)[i] == head[i]);
            }
        }
    }
}

} // verus!
