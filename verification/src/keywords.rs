//! The static keyword registry: documentation for the language's creation
//! and traversal operators, filters, comparisons, primitive types and
//! keywords, looked up by exact word match.
//!
//! This is the first resolver in the hover chain; it needs no cache and no
//! parse tree.
use vstd::prelude::*;

verus! {

/// The documentation shown for each registered word, or nothing for an
/// unregistered one.
pub open spec fn keyword_doc_spec(w: Seq<char>) -> Option<&'static str> {
    if w == "AddN"@ {
        Some("**AddN\\<Type\\>** - Create a new node\n\n```helixql\nAddN<User>({name: \"Alice\"})\n```")
    } else if w == "AddE"@ {
        Some("**AddE\\<Type\\>** - Create a new edge\n\n```helixql\nAddE<Follows>::From(user1)::To(user2)\n```")
    } else if w == "AddV"@ {
        Some("**AddV\\<Type\\>** - Add a vector\n\n```helixql\nAddV<Document>(vector, {content: \"text\"})\n```")
    } else if w == "Out"@ {
        Some("**Out\\<EdgeType\\>** - Traverse outgoing edges to connected nodes")
    } else if w == "In"@ {
        Some("**In\\<EdgeType\\>** - Traverse incoming edges to connected nodes")
    } else if w == "OutE"@ {
        Some("**OutE\\<EdgeType\\>** - Get outgoing edges")
    } else if w == "InE"@ {
        Some("**InE\\<EdgeType\\>** - Get incoming edges")
    } else if w == "FromN"@ {
        Some("**FromN** - Get the source node of an edge")
    } else if w == "ToN"@ {
        Some("**ToN** - Get the target node of an edge")
    } else if w == "WHERE"@ {
        Some("**WHERE** - Filter elements based on conditions\n\n```helixql\n::WHERE(_::{age}::GT(18))\n```")
    } else if w == "EXISTS"@ {
        Some("**EXISTS** - Check if traversal has results\n\n```helixql\nEXISTS(_::Out<Follows>)\n```")
    } else if w == "AND"@ {
        Some("**AND** - Logical AND operation")
    } else if w == "OR"@ {
        Some("**OR** - Logical OR operation")
    } else if w == "GT"@ {
        Some("**GT** - Greater than")
    } else if w == "GTE"@ {
        Some("**GTE** - Greater than or equal")
    } else if w == "LT"@ {
        Some("**LT** - Less than")
    } else if w == "LTE"@ {
        Some("**LTE** - Less than or equal")
    } else if w == "EQ"@ {
        Some("**EQ** - Equal to")
    } else if w == "NEQ"@ {
        Some("**NEQ** - Not equal to")
    } else if w == "COUNT"@ {
        Some("**COUNT** - Count the number of elements")
    } else if w == "UPDATE"@ {
        Some("**UPDATE** - Update properties of elements")
    } else if w == "DROP"@ {
        Some("**DROP** - Delete elements from the graph")
    } else if w == "RANGE"@ {
        Some("**RANGE** - Get a range of elements")
    } else if w == "SearchV"@ {
        Some("**SearchV** - Search for vectors")
    } else if w == "String"@ {
        Some("**String** - Text data type")
    } else if w == "Boolean"@ {
        Some("**Boolean** - True/false value")
    } else if w == "I8"@ {
        Some("**I8** - 8-bit signed integer (-128 to 127)")
    } else if w == "I16"@ {
        Some("**I16** - 16-bit signed integer")
    } else if w == "I32"@ {
        Some("**I32** - 32-bit signed integer")
    } else if w == "I64"@ {
        Some("**I64** - 64-bit signed integer")
    } else if w == "U8"@ {
        Some("**U8** - 8-bit unsigned integer (0 to 255)")
    } else if w == "U16"@ {
        Some("**U16** - 16-bit unsigned integer")
    } else if w == "U32"@ {
        Some("**U32** - 32-bit unsigned integer")
    } else if w == "U64"@ {
        Some("**U64** - 64-bit unsigned integer")
    } else if w == "U128"@ {
        Some("**U128** - 128-bit unsigned integer")
    } else if w == "F32"@ {
        Some("**F32** - 32-bit floating point")
    } else if w == "F64"@ {
        Some("**F64** - 64-bit floating point")
    } else if w == "ID"@ {
        Some("**ID** - UUID identifier")
    } else if w == "Date"@ {
        Some("**Date** - Date/timestamp value")
    } else if w == "QUERY"@ {
        Some("**QUERY** - Define a query function")
    } else if w == "RETURN"@ {
        Some("**RETURN** - Specify query output")
    } else if w == "FOR"@ {
        Some("**FOR** - Loop over a collection")
    } else if w == "IN"@ {
        Some("**IN** - Part of FOR loop syntax")
    } else if w == "INDEX"@ {
        Some("**INDEX** - Mark a field as indexed")
    } else if w == "DEFAULT"@ {
        Some("**DEFAULT** - Set default value for a field")
    } else {
        None
    }
}

/// Looks a word up in the keyword registry.
pub fn keyword_doc(word: &Vec<char>) -> (r: Option<&'static str>)
    ensures
        r == keyword_doc_spec(word@),
{
    if crate::text::chars_eq_lit(word, "AddN") {
        Some("**AddN\\<Type\\>** - Create a new node\n\n```helixql\nAddN<User>({name: \"Alice\"})\n```")
    } else if crate::text::chars_eq_lit(word, "AddE") {
        Some("**AddE\\<Type\\>** - Create a new edge\n\n```helixql\nAddE<Follows>::From(user1)::To(user2)\n```")
    } else if crate::text::chars_eq_lit(word, "AddV") {
        Some("**AddV\\<Type\\>** - Add a vector\n\n```helixql\nAddV<Document>(vector, {content: \"text\"})\n```")
    } else if crate::text::chars_eq_lit(word, "Out") {
        Some("**Out\\<EdgeType\\>** - Traverse outgoing edges to connected nodes")
    } else if crate::text::chars_eq_lit(word, "In") {
        Some("**In\\<EdgeType\\>** - Traverse incoming edges to connected nodes")
    } else if crate::text::chars_eq_lit(word, "OutE") {
        Some("**OutE\\<EdgeType\\>** - Get outgoing edges")
    } else if crate::text::chars_eq_lit(word, "InE") {
        Some("**InE\\<EdgeType\\>** - Get incoming edges")
    } else if crate::text::chars_eq_lit(word, "FromN") {
        Some("**FromN** - Get the source node of an edge")
    } else if crate::text::chars_eq_lit(word, "ToN") {
        Some("**ToN** - Get the target node of an edge")
    } else if crate::text::chars_eq_lit(word, "WHERE") {
        Some("**WHERE** - Filter elements based on conditions\n\n```helixql\n::WHERE(_::{age}::GT(18))\n```")
    } else if crate::text::chars_eq_lit(word, "EXISTS") {
        Some("**EXISTS** - Check if traversal has results\n\n```helixql\nEXISTS(_::Out<Follows>)\n```")
    } else if crate::text::chars_eq_lit(word, "AND") {
        Some("**AND** - Logical AND operation")
    } else if crate::text::chars_eq_lit(word, "OR") {
        Some("**OR** - Logical OR operation")
    } else if crate::text::chars_eq_lit(word, "GT") {
        Some("**GT** - Greater than")
    } else if crate::text::chars_eq_lit(word, "GTE") {
        Some("**GTE** - Greater than or equal")
    } else if crate::text::chars_eq_lit(word, "LT") {
        Some("**LT** - Less than")
    } else if crate::text::chars_eq_lit(word, "LTE") {
        Some("**LTE** - Less than or equal")
    } else if crate::text::chars_eq_lit(word, "EQ") {
        Some("**EQ** - Equal to")
    } else if crate::text::chars_eq_lit(word, "NEQ") {
        Some("**NEQ** - Not equal to")
    } else if crate::text::chars_eq_lit(word, "COUNT") {
        Some("**COUNT** - Count the number of elements")
    } else if crate::text::chars_eq_lit(word, "UPDATE") {
        Some("**UPDATE** - Update properties of elements")
    } else if crate::text::chars_eq_lit(word, "DROP") {
        Some("**DROP** - Delete elements from the graph")
    } else if crate::text::chars_eq_lit(word, "RANGE") {
        Some("**RANGE** - Get a range of elements")
    } else if crate::text::chars_eq_lit(word, "SearchV") {
        Some("**SearchV** - Search for vectors")
    } else if crate::text::chars_eq_lit(word, "String") {
        Some("**String** - Text data type")
    } else if crate::text::chars_eq_lit(word, "Boolean") {
        Some("**Boolean** - True/false value")
    } else if crate::text::chars_eq_lit(word, "I8") {
        Some("**I8** - 8-bit signed integer (-128 to 127)")
    } else if crate::text::chars_eq_lit(word, "I16") {
        Some("**I16** - 16-bit signed integer")
    } else if crate::text::chars_eq_lit(word, "I32") {
        Some("**I32** - 32-bit signed integer")
    } else if crate::text::chars_eq_lit(word, "I64") {
        Some("**I64** - 64-bit signed integer")
    } else if crate::text::chars_eq_lit(word, "U8") {
        Some("**U8** - 8-bit unsigned integer (0 to 255)")
    } else if crate::text::chars_eq_lit(word, "U16") {
        Some("**U16** - 16-bit unsigned integer")
    } else if crate::text::chars_eq_lit(word, "U32") {
        Some("**U32** - 32-bit unsigned integer")
    } else if crate::text::chars_eq_lit(word, "U64") {
        Some("**U64** - 64-bit unsigned integer")
    } else if crate::text::chars_eq_lit(word, "U128") {
        Some("**U128** - 128-bit unsigned integer")
    } else if crate::text::chars_eq_lit(word, "F32") {
        Some("**F32** - 32-bit floating point")
    } else if crate::text::chars_eq_lit(word, "F64") {
        Some("**F64** - 64-bit floating point")
    } else if crate::text::chars_eq_lit(word, "ID") {
        Some("**ID** - UUID identifier")
    } else if crate::text::chars_eq_lit(word, "Date") {
        Some("**Date** - Date/timestamp value")
    } else if crate::text::chars_eq_lit(word, "QUERY") {
        Some("**QUERY** - Define a query function")
    } else if crate::text::chars_eq_lit(word, "RETURN") {
        Some("**RETURN** - Specify query output")
    } else if crate::text::chars_eq_lit(word, "FOR") {
        Some("**FOR** - Loop over a collection")
    } else if crate::text::chars_eq_lit(word, "IN") {
        Some("**IN** - Part of FOR loop syntax")
    } else if crate::text::chars_eq_lit(word, "INDEX") {
        Some("**INDEX** - Mark a field as indexed")
    } else if crate::text::chars_eq_lit(word, "DEFAULT") {
        Some("**DEFAULT** - Set default value for a field")
    } else {
        None
    }
}

} // verus!
