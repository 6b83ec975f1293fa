//! The tool definitions this assistant offers its model: each one a name,
//! a description, and the JSON-schema fragments describing its parameters.

use vstd::prelude::*;

verus! {

use vstd::string::StringExecFns;
use crate::ai::{Tool, create_tool};

fn param(k: &str, v: &str) -> (p: (String, String))
    ensures
        p.0@ == k@,
        p.1@ == v@,
{
    (String::from_str(k), String::from_str(v))
}

/// The query tool handed to the session: the model may ask to run one SQL
/// query, passed as the single required `query` argument.
pub fn query_tool() -> (t: Tool)
    ensures
        t.name@ == "execute_query"@,
        t.description@
            == "Execute a SQL query against the current database connection. Only use this tool when the user explicitly asks to run a query or needs to retrieve data from the database."@,
        t.parameters.deep_view() == seq![
            ("type"@, "\"object\""@),
            (
                "properties"@,
                "{\"query\":{\"type\":\"string\",\"description\":\"The SQL query to execute against the database.\"}}"@,
            ),
            ("required"@, "[\"query\"]"@),
        ],
{
    let mut parameters: Vec<(String, String)> = Vec::new();
    parameters.push(param("type", "\"object\""));
    parameters.push(
        param(
            "properties",
            "{\"query\":{\"type\":\"string\",\"description\":\"The SQL query to execute against the database.\"}}",
        ),
    );
    parameters.push(param("required", "[\"query\"]"));
    proof {
        assert(parameters.deep_view() =~= seq![
            ("type"@, "\"object\""@),
            (
                "properties"@,
                "{\"query\":{\"type\":\"string\",\"description\":\"The SQL query to execute against the database.\"}}"@,
            ),
            ("required"@, "[\"query\"]"@),
        ]);
    }
    create_tool(
        String::from_str("execute_query"),
        String::from_str(
            "Execute a SQL query against the current database connection. Only use this tool when the user explicitly asks to run a query or needs to retrieve data from the database.",
        ),
        parameters,
    )
}

/// A tool for running a query and returning its results.
pub fn create_query_database_tool() -> (t: Tool)
    ensures
        t.name@ == "query_database"@,
        t.description@ == "Execute a SQL query against the database and return the results."@,
        t.parameters.deep_view() == seq![
            ("type"@, "\"object\""@),
            (
                "properties"@,
                "{\"query\":{\"type\":\"string\",\"description\":\"The SQL query to execute against the database.\"}}"@,
            ),
            ("required"@, "[\"query\"]"@),
        ],
{
    let mut parameters: Vec<(String, String)> = Vec::new();
    parameters.push(param("type", "\"object\""));
    parameters.push(
        param(
            "properties",
            "{\"query\":{\"type\":\"string\",\"description\":\"The SQL query to execute against the database.\"}}",
        ),
    );
    parameters.push(param("required", "[\"query\"]"));
    proof {
        assert(parameters.deep_view() =~= seq![
            ("type"@, "\"object\""@),
            (
                "properties"@,
                "{\"query\":{\"type\":\"string\",\"description\":\"The SQL query to execute against the database.\"}}"@,
            ),
            ("required"@, "[\"query\"]"@),
        ]);
    }
    create_tool(
        String::from_str("query_database"),
        String::from_str("Execute a SQL query against the database and return the results."),
        parameters,
    )
}

/// A tool for generating a SQL query from a natural-language description,
/// optionally guided by schema information.
pub fn create_generate_query_tool() -> (t: Tool)
    ensures
        t.name@ == "generate_query"@,
        t.description@ == "Generate a SQL query based on a natural language description."@,
        t.parameters.deep_view() == seq![
            ("type"@, "\"object\""@),
            (
                "properties"@,
                "{\"description\":{\"type\":\"string\",\"description\":\"A natural language description of what the SQL query should accomplish.\"},\"schema\":{\"type\":\"string\",\"description\":\"Optional database schema information to help generate the query.\"}}"@,
            ),
            ("required"@, "[\"description\"]"@),
        ],
{
    let mut parameters: Vec<(String, String)> = Vec::new();
    parameters.push(param("type", "\"object\""));
    parameters.push(
        param(
            "properties",
            "{\"description\":{\"type\":\"string\",\"description\":\"A natural language description of what the SQL query should accomplish.\"},\"schema\":{\"type\":\"string\",\"description\":\"Optional database schema information to help generate the query.\"}}",
        ),
    );
    parameters.push(param("required", "[\"description\"]"));
    proof {
        assert(parameters.deep_view() =~= seq![
            ("type"@, "\"object\""@),
            (
                "properties"@,
                "{\"description\":{\"type\":\"string\",\"description\":\"A natural language description of what the SQL query should accomplish.\"},\"schema\":{\"type\":\"string\",\"description\":\"Optional database schema information to help generate the query.\"}}"@,
            ),
            ("required"@, "[\"description\"]"@),
        ]);
    }
    create_tool(
        String::from_str("generate_query"),
        String::from_str("Generate a SQL query based on a natural language description."),
        parameters,
    )
}

} // verus!
