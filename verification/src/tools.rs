//! The tools the server offers: their names, their parameters, and how a
//! call's name and arguments are turned into a request or refused.

use vstd::prelude::*;
use crate::text::{push_text, texts_of};
use crate::config::optional_text;

verus! {

/// The name under which the server introduces itself.
pub const SERVER_NAME: &'static str = "mcp-mysql-server";

/// What the server tells a client about itself.
pub const SERVER_INSTRUCTIONS: &'static str = "A MySQL MCP server that provides database access.";

/// The tools of the server.
#[derive(Debug, Clone, Copy, PartialEq, Eq, Structural)]
pub enum ToolKind {
    ListConnections,
    ListSchemas,
    ListTables,
    DescribeTable,
    ShowCreateTable,
    ExecuteQuery,
    ExecuteDdl,
    GetTablePreview,
    SearchSchema,
    GetIndexes,
    GetForeignKeys,
    GetTableStats,
    DryRunSql,
    ExplainQuery,
    AnalyzeRelationships,
    ScanPiiColumns,
    GenerateSchemaDiff,
}

/// The name by which a client calls a tool.
pub open spec fn tool_name(k: ToolKind) -> Seq<char> {
    match k {
        ToolKind::ListConnections => "list_connections"@,
        ToolKind::ListSchemas => "list_schemas"@,
        ToolKind::ListTables => "list_tables"@,
        ToolKind::DescribeTable => "describe_table"@,
        ToolKind::ShowCreateTable => "show_create_table"@,
        ToolKind::ExecuteQuery => "execute_query"@,
        ToolKind::ExecuteDdl => "execute_ddl"@,
        ToolKind::GetTablePreview => "get_table_preview"@,
        ToolKind::SearchSchema => "search_schema"@,
        ToolKind::GetIndexes => "get_indexes"@,
        ToolKind::GetForeignKeys => "get_foreign_keys"@,
        ToolKind::GetTableStats => "get_table_stats"@,
        ToolKind::DryRunSql => "dry_run_sql"@,
        ToolKind::ExplainQuery => "explain_query"@,
        ToolKind::AnalyzeRelationships => "analyze_relationships"@,
        ToolKind::ScanPiiColumns => "scan_pii_columns"@,
        ToolKind::GenerateSchemaDiff => "generate_schema_diff"@,
    }
}

/// What a tool does, as the catalog describes it.
pub open spec fn tool_description(k: ToolKind) -> Seq<char> {
    match k {
        ToolKind::ListConnections => "List all available database connections"@,
        ToolKind::ListSchemas => "List schemas in a connection"@,
        ToolKind::ListTables => "List tables in a schema"@,
        ToolKind::DescribeTable => "Describe table structure"@,
        ToolKind::ShowCreateTable => "Show create table statement"@,
        ToolKind::ExecuteQuery => "Execute a read-only SQL query"@,
        ToolKind::ExecuteDdl => "Execute a DDL SQL query (Warning: Destructive operation)"@,
        ToolKind::GetTablePreview => "Quickly preview data from a table"@,
        ToolKind::SearchSchema => "Search for tables or columns by keyword across the schema"@,
        ToolKind::GetIndexes => "Get index information for a table"@,
        ToolKind::GetForeignKeys => "Get foreign key relationships for a table"@,
        ToolKind::GetTableStats => "Get table statistics like row count and size"@,
        ToolKind::DryRunSql => "Execute a DML SQL query (INSERT/UPDATE/DELETE) in a transaction and rollback to see effect"@,
        ToolKind::ExplainQuery => "Execute EXPLAIN on a SQL query to analyze performance"@,
        ToolKind::AnalyzeRelationships => "Analyze logical relationships and suggested joins based on naming conventions"@,
        ToolKind::ScanPiiColumns => "Scan schema for potential PII (Personally Identifiable Information) columns"@,
        ToolKind::GenerateSchemaDiff => "Generate structural diff between two different data sources/schemas"@,
    }
}

/// The text arguments that a tool cannot do without, in the order in which
/// they are checked.
pub open spec fn required_keys(k: ToolKind) -> Seq<Seq<char>> {
    match k {
        ToolKind::ListConnections => seq![],
        ToolKind::ListSchemas => seq!["connection_name"@],
        ToolKind::ListTables => seq!["connection_name"@, "schema_name"@],
        ToolKind::DescribeTable => seq!["connection_name"@, "schema_name"@, "table_name"@],
        ToolKind::ShowCreateTable => seq!["connection_name"@, "schema_name"@, "table_name"@],
        ToolKind::ExecuteQuery => seq!["connection_name"@, "sql"@],
        ToolKind::ExecuteDdl => seq!["connection_name"@, "sql"@],
        ToolKind::GetTablePreview => seq!["connection_name"@, "schema_name"@, "table_name"@],
        ToolKind::SearchSchema => seq!["connection_name"@, "keyword"@],
        ToolKind::GetIndexes => seq!["connection_name"@, "schema_name"@, "table_name"@],
        ToolKind::GetForeignKeys => seq!["connection_name"@, "schema_name"@, "table_name"@],
        ToolKind::GetTableStats => seq!["connection_name"@, "schema_name"@, "table_name"@],
        ToolKind::DryRunSql => seq!["connection_name"@, "sql"@],
        ToolKind::ExplainQuery => seq!["connection_name"@, "sql"@],
        ToolKind::AnalyzeRelationships => seq!["connection_name"@, "schema_name"@],
        ToolKind::ScanPiiColumns => seq!["connection_name"@, "schema_name"@],
        ToolKind::GenerateSchemaDiff => seq![
            "source_connection"@,
            "source_schema"@,
            "target_connection"@,
            "target_schema"@,
        ],
    }
}

/// Whether the tool takes an optional `schema_name` text argument.
pub open spec fn takes_optional_schema(k: ToolKind) -> bool {
    k == ToolKind::ExecuteQuery || k == ToolKind::ExecuteDdl
}

/// The number of rows a preview shows when the call gives no limit.
pub const DEFAULT_PREVIEW_LIMIT: u32 = 10;

/// Every tool, in the order of the catalog.
pub open spec fn all_tools() -> Seq<ToolKind> {
    seq![
        ToolKind::ListConnections,
        ToolKind::ListSchemas,
        ToolKind::ListTables,
        ToolKind::DescribeTable,
        ToolKind::ShowCreateTable,
        ToolKind::ExecuteQuery,
        ToolKind::ExecuteDdl,
        ToolKind::GetTablePreview,
        ToolKind::SearchSchema,
        ToolKind::GetIndexes,
        ToolKind::GetForeignKeys,
        ToolKind::GetTableStats,
        ToolKind::DryRunSql,
        ToolKind::ExplainQuery,
        ToolKind::AnalyzeRelationships,
        ToolKind::ScanPiiColumns,
        ToolKind::GenerateSchemaDiff,
    ]
}

/// Every tool appears in [`all_tools`].
pub proof fn lemma_all_tools_complete(k: ToolKind)
    ensures
        all_tools().contains(k),
{
    let a = all_tools();
    match k {
        ToolKind::ListConnections => assert(a[0] == k),
        ToolKind::ListSchemas => assert(a[1] == k),
        ToolKind::ListTables => assert(a[2] == k),
        ToolKind::DescribeTable => assert(a[3] == k),
        ToolKind::ShowCreateTable => assert(a[4] == k),
        ToolKind::ExecuteQuery => assert(a[5] == k),
        ToolKind::ExecuteDdl => assert(a[6] == k),
        ToolKind::GetTablePreview => assert(a[7] == k),
        ToolKind::SearchSchema => assert(a[8] == k),
        ToolKind::GetIndexes => assert(a[9] == k),
        ToolKind::GetForeignKeys => assert(a[10] == k),
        ToolKind::GetTableStats => assert(a[11] == k),
        ToolKind::DryRunSql => assert(a[12] == k),
        ToolKind::ExplainQuery => assert(a[13] == k),
        ToolKind::AnalyzeRelationships => assert(a[14] == k),
        ToolKind::ScanPiiColumns => assert(a[15] == k),
        ToolKind::GenerateSchemaDiff => assert(a[16] == k),
    }
}

/// No two tools share a name.
pub proof fn lemma_tool_names_distinct()
    ensures
        forall|a: ToolKind, b: ToolKind| a != b ==> #[trigger] tool_name(a) != #[trigger] tool_name(b),
{
    reveal_strlit("list_connections");
    reveal_strlit("list_schemas");
    reveal_strlit("list_tables");
    reveal_strlit("describe_table");
    reveal_strlit("show_create_table");
    reveal_strlit("execute_query");
    reveal_strlit("execute_ddl");
    reveal_strlit("get_table_preview");
    reveal_strlit("search_schema");
    reveal_strlit("get_indexes");
    reveal_strlit("get_foreign_keys");
    reveal_strlit("get_table_stats");
    reveal_strlit("dry_run_sql");
    reveal_strlit("explain_query");
    reveal_strlit("analyze_relationships");
    reveal_strlit("scan_pii_columns");
    reveal_strlit("generate_schema_diff");
    assert forall|a: ToolKind, b: ToolKind| a != b implies #[trigger] tool_name(a) != #[trigger] tool_name(b) by {
        if tool_name(a) == tool_name(b) {
            assert(tool_name(a).len() == tool_name(b).len());
            assert(tool_name(a)[0] == tool_name(b)[0]);
            assert(tool_name(a)[1] == tool_name(b)[1]);
            assert(tool_name(a)[4] == tool_name(b)[4]);
            assert(tool_name(a)[5] == tool_name(b)[5]);
            assert(tool_name(a)[8] == tool_name(b)[8]);
        }
    }
}

impl ToolKind {
    /// The name by which a client calls the tool.
    pub fn name(self) -> (r: &'static str)
        ensures
            r@ == tool_name(self),
    {
        match self {
            ToolKind::ListConnections => "list_connections",
            ToolKind::ListSchemas => "list_schemas",
            ToolKind::ListTables => "list_tables",
            ToolKind::DescribeTable => "describe_table",
            ToolKind::ShowCreateTable => "show_create_table",
            ToolKind::ExecuteQuery => "execute_query",
            ToolKind::ExecuteDdl => "execute_ddl",
            ToolKind::GetTablePreview => "get_table_preview",
            ToolKind::SearchSchema => "search_schema",
            ToolKind::GetIndexes => "get_indexes",
            ToolKind::GetForeignKeys => "get_foreign_keys",
            ToolKind::GetTableStats => "get_table_stats",
            ToolKind::DryRunSql => "dry_run_sql",
            ToolKind::ExplainQuery => "explain_query",
            ToolKind::AnalyzeRelationships => "analyze_relationships",
            ToolKind::ScanPiiColumns => "scan_pii_columns",
            ToolKind::GenerateSchemaDiff => "generate_schema_diff",
        }
    }
}


impl ToolKind {
    /// What the tool does, as the catalog describes it.
    pub fn description(self) -> (r: &'static str)
        ensures
            r@ == tool_description(self),
    {
        match self {
            ToolKind::ListConnections => "List all available database connections",
            ToolKind::ListSchemas => "List schemas in a connection",
            ToolKind::ListTables => "List tables in a schema",
            ToolKind::DescribeTable => "Describe table structure",
            ToolKind::ShowCreateTable => "Show create table statement",
            ToolKind::ExecuteQuery => "Execute a read-only SQL query",
            ToolKind::ExecuteDdl => "Execute a DDL SQL query (Warning: Destructive operation)",
            ToolKind::GetTablePreview => "Quickly preview data from a table",
            ToolKind::SearchSchema => "Search for tables or columns by keyword across the schema",
            ToolKind::GetIndexes => "Get index information for a table",
            ToolKind::GetForeignKeys => "Get foreign key relationships for a table",
            ToolKind::GetTableStats => "Get table statistics like row count and size",
            ToolKind::DryRunSql => "Execute a DML SQL query (INSERT/UPDATE/DELETE) in a transaction and rollback to see effect",
            ToolKind::ExplainQuery => "Execute EXPLAIN on a SQL query to analyze performance",
            ToolKind::AnalyzeRelationships => "Analyze logical relationships and suggested joins based on naming conventions",
            ToolKind::ScanPiiColumns => "Scan schema for potential PII (Personally Identifiable Information) columns",
            ToolKind::GenerateSchemaDiff => "Generate structural diff between two different data sources/schemas",
        }
    }

    /// The text arguments that the tool cannot do without, in the order in
    /// which they are checked.
    pub fn required_arguments(self) -> (r: Vec<&'static str>)
        ensures
            r@.map_values(|s: &str| s@) == required_keys(self),
    {
        let r = match self {
            ToolKind::ListConnections => vec![],
            ToolKind::ListSchemas => vec!["connection_name"],
            ToolKind::ListTables => vec!["connection_name", "schema_name"],
            ToolKind::DescribeTable => vec!["connection_name", "schema_name", "table_name"],
            ToolKind::ShowCreateTable => vec!["connection_name", "schema_name", "table_name"],
            ToolKind::ExecuteQuery => vec!["connection_name", "sql"],
            ToolKind::ExecuteDdl => vec!["connection_name", "sql"],
            ToolKind::GetTablePreview => vec!["connection_name", "schema_name", "table_name"],
            ToolKind::SearchSchema => vec!["connection_name", "keyword"],
            ToolKind::GetIndexes => vec!["connection_name", "schema_name", "table_name"],
            ToolKind::GetForeignKeys => vec!["connection_name", "schema_name", "table_name"],
            ToolKind::GetTableStats => vec!["connection_name", "schema_name", "table_name"],
            ToolKind::DryRunSql => vec!["connection_name", "sql"],
            ToolKind::ExplainQuery => vec!["connection_name", "sql"],
            ToolKind::AnalyzeRelationships => vec!["connection_name", "schema_name"],
            ToolKind::ScanPiiColumns => vec!["connection_name", "schema_name"],
            ToolKind::GenerateSchemaDiff => vec![
                "source_connection",
                "source_schema",
                "target_connection",
                "target_schema",
            ],
        };
        assert(r@.map_values(|s: &str| s@) =~= required_keys(self));
        r
    }
}

/// Every tool, in the order of the catalog.
pub fn every_tool() -> (r: Vec<ToolKind>)
    ensures
        r@ == all_tools(),
{
    let r = vec![
        ToolKind::ListConnections,
        ToolKind::ListSchemas,
        ToolKind::ListTables,
        ToolKind::DescribeTable,
        ToolKind::ShowCreateTable,
        ToolKind::ExecuteQuery,
        ToolKind::ExecuteDdl,
        ToolKind::GetTablePreview,
        ToolKind::SearchSchema,
        ToolKind::GetIndexes,
        ToolKind::GetForeignKeys,
        ToolKind::GetTableStats,
        ToolKind::DryRunSql,
        ToolKind::ExplainQuery,
        ToolKind::AnalyzeRelationships,
        ToolKind::ScanPiiColumns,
        ToolKind::GenerateSchemaDiff,
    ];
    assert(r@ =~= all_tools());
    r
}

/// The tool of a name, if there is one.
pub open spec fn tool_named(name: Seq<char>) -> Option<ToolKind> {
    if exists|k: ToolKind| tool_name(k) == name {
        Some(choose|k: ToolKind| tool_name(k) == name)
    } else {
        None
    }
}

/// Each tool is found by its own name.
pub proof fn lemma_tool_named(k: ToolKind)
    ensures
        tool_named(tool_name(k)) == Some(k),
{
    lemma_tool_names_distinct();
    let c = choose|c: ToolKind| tool_name(c) == tool_name(k);
    assert(tool_name(c) == tool_name(k));
}

/// Each name that clients call a tool by reaches that tool, and no other:
/// `describe_table` describes a table's columns, `show_create_table` shows
/// its creating statement, and so on for every tool.
pub proof fn lemma_call_names_reach_their_tools()
    ensures
        tool_named("list_connections"@) == Some(ToolKind::ListConnections),
        tool_named("list_schemas"@) == Some(ToolKind::ListSchemas),
        tool_named("list_tables"@) == Some(ToolKind::ListTables),
        tool_named("describe_table"@) == Some(ToolKind::DescribeTable),
        tool_named("show_create_table"@) == Some(ToolKind::ShowCreateTable),
        tool_named("execute_query"@) == Some(ToolKind::ExecuteQuery),
        tool_named("execute_ddl"@) == Some(ToolKind::ExecuteDdl),
        tool_named("get_table_preview"@) == Some(ToolKind::GetTablePreview),
        tool_named("search_schema"@) == Some(ToolKind::SearchSchema),
        tool_named("get_indexes"@) == Some(ToolKind::GetIndexes),
        tool_named("get_foreign_keys"@) == Some(ToolKind::GetForeignKeys),
        tool_named("get_table_stats"@) == Some(ToolKind::GetTableStats),
        tool_named("dry_run_sql"@) == Some(ToolKind::DryRunSql),
        tool_named("explain_query"@) == Some(ToolKind::ExplainQuery),
        tool_named("analyze_relationships"@) == Some(ToolKind::AnalyzeRelationships),
        tool_named("scan_pii_columns"@) == Some(ToolKind::ScanPiiColumns),
        tool_named("generate_schema_diff"@) == Some(ToolKind::GenerateSchemaDiff),
{
    lemma_tool_named(ToolKind::ListConnections);
    lemma_tool_named(ToolKind::ListSchemas);
    lemma_tool_named(ToolKind::ListTables);
    lemma_tool_named(ToolKind::DescribeTable);
    lemma_tool_named(ToolKind::ShowCreateTable);
    lemma_tool_named(ToolKind::ExecuteQuery);
    lemma_tool_named(ToolKind::ExecuteDdl);
    lemma_tool_named(ToolKind::GetTablePreview);
    lemma_tool_named(ToolKind::SearchSchema);
    lemma_tool_named(ToolKind::GetIndexes);
    lemma_tool_named(ToolKind::GetForeignKeys);
    lemma_tool_named(ToolKind::GetTableStats);
    lemma_tool_named(ToolKind::DryRunSql);
    lemma_tool_named(ToolKind::ExplainQuery);
    lemma_tool_named(ToolKind::AnalyzeRelationships);
    lemma_tool_named(ToolKind::ScanPiiColumns);
    lemma_tool_named(ToolKind::GenerateSchemaDiff);
}

/// The tool a client calls by `name`.
pub fn find_tool(name: &str) -> (r: Option<ToolKind>)
    ensures
        r == tool_named(name@),
{
    let all = every_tool();
    let key = String::from_str(name);
    let n = all.len();
    for i in 0..n
        invariant
            n == all@.len(),
            all@ == all_tools(),
            key@ == name@,
            forall|j: int| 0 <= j < i ==> tool_name(#[trigger] all@[j]) != name@,
    {
        let k = all[i];
        let candidate = String::from_str(k.name());
        if candidate == key {
            proof {
                lemma_tool_named(k);
            }
            return Some(k);
        }
    }
    proof {
        if exists|k: ToolKind| tool_name(k) == name@ {
            let k = choose|k: ToolKind| tool_name(k) == name@;
            lemma_all_tools_complete(k);
            let j = choose|j: int| 0 <= j < all_tools().len() && all_tools()[j] == k;
            assert(tool_name(all@[j]) != name@);
        }
    }
    None
}

/// The value of an argument of a call, as far as the tools read it.
#[derive(Debug)]
pub enum ArgumentValue {
    Text(String),
    Unsigned(u64),
    /// Any other JSON value.
    Other,
}

/// A named argument of a call.
#[derive(Debug)]
pub struct Argument {
    pub name: String,
    pub value: ArgumentValue,
}

/// The value of the first argument of this name.
pub open spec fn argument_named(args: Seq<Argument>, key: Seq<char>) -> Option<ArgumentValue>
    decreases args.len(),
{
    if args.len() == 0 {
        None
    } else if args[0].name@ == key {
        Some(args[0].value)
    } else {
        argument_named(args.drop_first(), key)
    }
}

/// The text of the argument of this name, when it is text.
pub open spec fn text_argument(args: Seq<Argument>, key: Seq<char>) -> Option<Seq<char>> {
    match argument_named(args, key) {
        Some(ArgumentValue::Text(s)) => Some(s@),
        _ => None,
    }
}

/// The number of the argument of this name, when it is an unsigned integer.
pub open spec fn unsigned_argument(args: Seq<Argument>, key: Seq<char>) -> Option<u64> {
    match argument_named(args, key) {
        Some(ArgumentValue::Unsigned(v)) => Some(v),
        _ => None,
    }
}

/// Looks up the first argument of this name.
fn find_argument<'a>(args: &'a Vec<Argument>, key: &str) -> (r: Option<&'a ArgumentValue>)
    ensures
        match r {
            Some(v) => argument_named(args@, key@) == Some(*v),
            None => argument_named(args@, key@) is None,
        },
{
    let k = String::from_str(key);
    let n = args.len();
    proof {
        assert(args@.skip(0) =~= args@);
    }
    for i in 0..n
        invariant
            n == args@.len(),
            k@ == key@,
            argument_named(args@, key@) == argument_named(args@.skip(i as int), key@),
    {
        proof {
            assert(args@.skip(i as int).drop_first() =~= args@.skip(i + 1));
            assert(args@.skip(i as int)[0] == args@[i as int]);
        }
        if args[i].name == k {
            return Some(&args[i].value);
        }
    }
    proof {
        assert(args@.skip(n as int) =~= Seq::<Argument>::empty());
    }
    None
}

/// The text of the argument of this name, when it is text.
pub fn text_argument_of(args: &Vec<Argument>, key: &str) -> (r: Option<String>)
    ensures
        match r {
            Some(s) => text_argument(args@, key@) == Some(s@),
            None => text_argument(args@, key@) is None,
        },
{
    match find_argument(args, key) {
        Some(ArgumentValue::Text(s)) => Some(s.clone()),
        _ => None,
    }
}

/// Why a call was refused or failed.
#[derive(Debug)]
pub enum ToolFailure {
    /// An argument the tool needs is missing or is not text.
    InvalidParameters(String),
    /// Running the tool failed.
    ExecutionError(String),
    /// No tool has the name called.
    NotFound(String),
}

/// A call that names a tool and gives every argument it needs.
#[derive(Debug)]
pub struct ToolRequest {
    pub tool: ToolKind,
    /// The texts of the tool's required arguments, in the order of
    /// [`ToolKind::required_arguments`].
    pub arguments: Vec<String>,
    /// The optional `schema_name` of `execute_query` and `execute_ddl`.
    pub schema: Option<String>,
    /// The number of rows that `get_table_preview` shows.
    pub limit: u32,
}

/// All of the first `n` required arguments are given as text.
pub open spec fn first_present(args: Seq<Argument>, keys: Seq<Seq<char>>, n: int) -> bool {
    forall|i: int| 0 <= i < n ==> (#[trigger] text_argument(args, keys[i])) is Some
}

/// The preview limit of a call: the `limit` argument truncated to 32 bits
/// as `as u32` does, or the default when it is not an unsigned integer.
pub open spec fn preview_limit(args: Seq<Argument>) -> u32 {
    match unsigned_argument(args, "limit"@) {
        Some(v) => v as u32,
        None => DEFAULT_PREVIEW_LIMIT,
    }
}


/// Turns a call into a request. An unknown name is refused as not found; a
/// known tool whose required arguments are not all given as text is
/// refused with the first one missing; otherwise the request carries the
/// tool, the required texts in order, the optional schema of the query tools
/// and the preview limit (the default for other tools).
pub fn parse_tool_call(name: &str, args: &Vec<Argument>) -> (r: Result<ToolRequest, ToolFailure>)
    ensures
        tool_named(name@) is None ==> (r matches Err(ToolFailure::NotFound(m)) && m@ == "Tool "@
            + name@ + " not found"@),
        tool_named(name@) matches Some(k) ==> {
            let keys = required_keys(k);
            &&& (r is Ok <==> first_present(args@, keys, keys.len() as int))
            &&& (r matches Ok(req) ==> {
                &&& req.tool == k
                &&& texts_of(req.arguments@).len() == keys.len()
                &&& forall|i: int| 0 <= i < keys.len() ==> text_argument(args@, keys[i]) == Some(
                    #[trigger] texts_of(req.arguments@)[i],
                )
                &&& optional_text(req.schema) == (if takes_optional_schema(k) {
                    text_argument(args@, "schema_name"@)
                } else {
                    None
                })
                &&& req.limit == (if k == ToolKind::GetTablePreview {
                    preview_limit(args@)
                } else {
                    DEFAULT_PREVIEW_LIMIT
                })
            })
            &&& (r is Err ==> exists|j: int| 0 <= j < keys.len() && first_present(args@, keys, j)
                && text_argument(args@, #[trigger] keys[j]) is None && invalid_parameters_text(r)
                == Some("Missing "@ + keys[j]))
        },
{
    let tool = match find_tool(name) {
        Some(k) => k,
        None => {
            let mut m = String::new();
            push_text(&mut m, "Tool ");
            push_text(&mut m, name);
            push_text(&mut m, " not found");
            return Err(ToolFailure::NotFound(m));
        },
    };
    let keys = tool.required_arguments();
    let ghost key_texts = required_keys(tool);
    let mut texts: Vec<String> = Vec::new();
    let n = keys.len();
    proof {
        assert(keys@.map_values(|s: &str| s@).len() == n);
    }
    for i in 0..n
        invariant
            n == key_texts.len(),
            tool_named(name@) == Some(tool),
            key_texts == required_keys(tool),
            keys@.map_values(|s: &str| s@) == key_texts,
            texts@.len() == i,
            first_present(args@, key_texts, i as int),
            forall|j: int| 0 <= j < i ==> text_argument(args@, key_texts[j]) == Some(#[trigger] texts@[j]@),
    {
        let key = keys[i];
        proof {
            assert(keys@.map_values(|s: &str| s@)[i as int] == key@);
        }
        match text_argument_of(args, key) {
            Some(t) => {
                texts.push(t);
            },
            None => {
                let mut m = String::new();
                push_text(&mut m, "Missing ");
                push_text(&mut m, key);
                let r: Result<ToolRequest, ToolFailure> = Err(ToolFailure::InvalidParameters(m));
                proof {
                    assert(text_argument(args@, key_texts[i as int]) is None);
                    assert(invalid_parameters_text(r) == Some("Missing "@ + key_texts[i as int]));
                    assert(!first_present(args@, key_texts, key_texts.len() as int));
                }
                return r;
            },
        }
    }
    let schema = if tool == ToolKind::ExecuteQuery || tool == ToolKind::ExecuteDdl {
        text_argument_of(args, "schema_name")
    } else {
        None
    };
    let limit: u32 = if tool == ToolKind::GetTablePreview {
        match find_argument(args, "limit") {
            Some(ArgumentValue::Unsigned(v)) => *v as u32,
            _ => DEFAULT_PREVIEW_LIMIT,
        }
    } else {
        DEFAULT_PREVIEW_LIMIT
    };
    proof {
        assert forall|i: int| 0 <= i < key_texts.len() implies text_argument(args@, key_texts[i]) == Some(
            #[trigger] texts_of(texts@)[i],
        ) by {
            assert(texts_of(texts@)[i] == texts@[i]@);
        }
    }
    Ok(ToolRequest { tool, arguments: texts, schema, limit })
}

/// The message of a refusal for invalid parameters.
pub open spec fn invalid_parameters_text(r: Result<ToolRequest, ToolFailure>) -> Option<Seq<char>> {
    match r {
        Err(ToolFailure::InvalidParameters(m)) => Some(m@),
        _ => None,
    }
}

/// The JSON type of a parameter.
#[derive(Debug, Clone, Copy, PartialEq, Eq, Structural)]
pub enum ParamKind {
    Text,
    Integer,
}

/// A parameter as the catalog lists it.
#[derive(Debug)]
pub struct ParamSpec {
    pub name: &'static str,
    pub kind: ParamKind,
    pub description: Option<&'static str>,
    pub default: Option<u64>,
}

/// The mathematical value of a [`ParamSpec`].
pub struct ParamView {
    pub name: Seq<char>,
    pub kind: ParamKind,
    pub description: Option<Seq<char>>,
    pub default: Option<u64>,
}

/// The value of a parameter entry.
pub open spec fn param_view(p: ParamSpec) -> ParamView {
    ParamView {
        name: p.name@,
        kind: p.kind,
        description: match p.description {
            Some(d) => Some(d@),
            None => None,
        },
        default: p.default,
    }
}

/// The note that the catalog gives with a required parameter (only the
/// connection of `list_schemas` has one).
pub open spec fn required_param_note(k: ToolKind) -> Option<Seq<char>> {
    if k == ToolKind::ListSchemas {
        Some("The name of the connection"@)
    } else {
        None
    }
}

/// The catalog entry of a required parameter: text, with no default.
pub open spec fn required_param(k: ToolKind, key: Seq<char>) -> ParamView {
    ParamView { name: key, kind: ParamKind::Text, description: required_param_note(k), default: None }
}

/// The optional parameters of a tool: the schema of the query tools, and
/// the row limit of the preview (an integer, 10 by default).
pub open spec fn optional_params(k: ToolKind) -> Seq<ParamView> {
    if takes_optional_schema(k) {
        seq![ParamView { name: "schema_name"@, kind: ParamKind::Text, description: None, default: None }]
    } else if k == ToolKind::GetTablePreview {
        seq![ParamView { name: "limit"@, kind: ParamKind::Integer, description: None, default: Some(10) }]
    } else {
        seq![]
    }
}

/// All parameters of a tool as the catalog lists them: the required ones,
/// then the optional ones.
pub open spec fn tool_params(k: ToolKind) -> Seq<ParamView> {
    required_keys(k).map_values(|key: Seq<char>| required_param(k, key)) + optional_params(k)
}

/// A tool as the catalog lists it.
#[derive(Debug)]
pub struct ToolDescriptor {
    pub tool: ToolKind,
    pub name: &'static str,
    pub description: &'static str,
    pub params: Vec<ParamSpec>,
    /// The parameters that a call must give.
    pub required: Vec<&'static str>,
}

/// Whether a catalog entry describes tool `k`.
pub open spec fn describes(d: ToolDescriptor, k: ToolKind) -> bool {
    &&& d.tool == k
    &&& d.name@ == tool_name(k)
    &&& d.description@ == tool_description(k)
    &&& d.params@.map_values(|p: ParamSpec| param_view(p)) == tool_params(k)
    &&& d.required@.map_values(|s: &str| s@) == required_keys(k)
}

impl ToolKind {
    /// The catalog entry of the tool.
    pub fn descriptor(self) -> (d: ToolDescriptor)
        ensures
            describes(d, self),
    {
        let required = self.required_arguments();
        let mut params: Vec<ParamSpec> = Vec::new();
        let note: Option<&'static str> = if self == ToolKind::ListSchemas {
            Some("The name of the connection")
        } else {
            None
        };
        let ghost note_view = required_param_note(self);
        let n = required.len();
        proof {
            assert(required@.map_values(|s: &str| s@).len() == n);
        }
        for i in 0..n
            invariant
                n == required@.len(),
                required@.map_values(|s: &str| s@) == required_keys(self),
                note_view == required_param_note(self),
                match note {
                    Some(t) => note_view == Some(t@),
                    None => note_view is None,
                },
                params@.len() == i,
                forall|j: int|
                    0 <= j < i ==> param_view(#[trigger] params@[j]) == required_param(
                        self,
                        required_keys(self)[j],
                    ),
        {
            proof {
                assert(required@.map_values(|s: &str| s@)[i as int] == required@[i as int]@);
            }
            params.push(ParamSpec { name: required[i], kind: ParamKind::Text, description: note, default: None });
        }
        let ghost before = params@;
        if self == ToolKind::ExecuteQuery || self == ToolKind::ExecuteDdl {
            params.push(ParamSpec { name: "schema_name", kind: ParamKind::Text, description: None, default: None });
        } else if self == ToolKind::GetTablePreview {
            params.push(ParamSpec { name: "limit", kind: ParamKind::Integer, description: None, default: Some(10) });
        }
        proof {
            let v = params@.map_values(|p: ParamSpec| param_view(p));
            let w = tool_params(self);
            assert(v.len() == w.len());
            assert forall|j: int| 0 <= j < v.len() implies v[j] == w[j] by {
                if j < n {
                    assert(v[j] == param_view(params@[j]));
                    assert(params@[j] == before[j]);
                }
            }
            assert(v =~= w);
        }
        ToolDescriptor {
            tool: self,
            name: self.name(),
            description: self.description(),
            params,
            required,
        }
    }
}

/// The catalog: an entry for every tool, in the order of [`all_tools`].
pub fn tool_catalog() -> (c: Vec<ToolDescriptor>)
    ensures
        c@.len() == all_tools().len(),
        forall|i: int| 0 <= i < c@.len() ==> describes(#[trigger] c@[i], all_tools()[i]),
{
    let all = every_tool();
    let mut c: Vec<ToolDescriptor> = Vec::new();
    let n = all.len();
    for i in 0..n
        invariant
            n == all@.len(),
            all@ == all_tools(),
            c@.len() == i,
            forall|j: int| 0 <= j < i ==> describes(#[trigger] c@[j], all_tools()[j]),
    {
        c.push(all[i].descriptor());
    }
    c
}

/// The catalog and the dispatch of calls agree: a call by the name that a
/// catalog entry lists reaches that entry's tool, and it is accepted when it
/// gives as text every parameter that the entry marks as required.
pub proof fn lemma_catalog_matches_dispatch(d: ToolDescriptor, args: Seq<Argument>)
    requires
        describes(d, d.tool),
        forall|i: int| 0 <= i < d.required@.len() ==> (#[trigger] text_argument(args, d.required@[i]@)) is Some,
    ensures
        tool_named(d.name@) == Some(d.tool),
        first_present(args, required_keys(d.tool), required_keys(d.tool).len() as int),
{
    lemma_tool_named(d.tool);
    let keys = required_keys(d.tool);
    assert forall|i: int| 0 <= i < keys.len() implies (#[trigger] text_argument(args, keys[i])) is Some by {
        assert(d.required@.map_values(|s: &str| s@)[i] == d.required@[i]@);
    }
}

/// Every catalog entry names a different tool: the catalog lists each tool
/// once, under its own name.
pub proof fn lemma_catalog_names_distinct()
    ensures
        forall|i: int, j: int|
            0 <= i < all_tools().len() && 0 <= j < all_tools().len() && i != j ==> tool_name(
                #[trigger] all_tools()[i],
            ) != tool_name(#[trigger] all_tools()[j]),
{
    lemma_tool_names_distinct();
    assert forall|i: int, j: int|
        0 <= i < all_tools().len() && 0 <= j < all_tools().len() && i != j implies tool_name(
            #[trigger] all_tools()[i],
        ) != tool_name(#[trigger] all_tools()[j]) by {
        assert(all_tools()[i] != all_tools()[j]);
    }
}
} // verus!
