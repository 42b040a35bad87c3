//! The Swift language capability: the structural patterns run against
//! Swift syntax trees, the test-name heuristic, and the enclosing-class
//! resolution rule. Compiling and running the patterns against a grammar
//! happens outside the library; this module fixes what is asked and how
//! the answers are interpreted.

use vstd::prelude::*;
use crate::model::{NodeKeys, Operand};
use crate::queries::{first_index_where, lemma_first_index_is, lemma_first_index_none};
use crate::text::{spec_starts_with, str_eq, str_starts_with, string_views};

verus! {

/// The Swift language capability.
pub struct Swift;

/// A string equal to `k`.
pub open spec fn p_str(k: Seq<char>) -> spec_fn(Seq<char>) -> bool {
    |s: Seq<char>| s == k
}

impl Swift {
    /// A fresh capability value.
    pub fn new() -> (r: Self)
    {
        Swift
    }

    /// The import pattern: one capture per imported module name.
    pub fn imports_query(&self) -> (r: Option<String>)
        ensures
            r matches Some(q) ==> q@ == "(import_declaration (identifier) @IMPORTS)"@,
            r is Some,
    {
        Some("(import_declaration (identifier) @IMPORTS)".to_owned())
    }

    /// The class-definition pattern: the type name and the whole declaration.
    pub fn class_definition_query(&self) -> (r: String)
        ensures
            r@ == "(class_declaration (type_identifier) @CLASS_NAME) @CLASS_DEFINITION"@,
    {
        "(class_declaration (type_identifier) @CLASS_NAME) @CLASS_DEFINITION".to_owned()
    }

    /// The function-definition pattern: the function name.
    pub fn function_definition_query(&self) -> (r: String)
        ensures
            r@ == "(function_declaration (simple_identifier) @FUNCTION_NAME)"@,
    {
        "(function_declaration (simple_identifier) @FUNCTION_NAME)".to_owned()
    }

    /// The function-call pattern: the callee name and the argument list.
    pub fn function_call_query(&self) -> (r: String)
        ensures
            r@ == "(call_expression function: (identifier) @method_name arguments: (argument_list) @ARGUMENTS)"@,
    {
        "(call_expression function: (identifier) @method_name arguments: (argument_list) @ARGUMENTS)".to_owned()
    }

    /// The endpoint-candidate patterns: functions whose names carry an
    /// HTTP-verb-like prefix.
    pub fn endpoint_finders(&self) -> (r: Vec<String>)
        ensures
            string_views(r@)
                == seq!["(function_declaration (simple_identifier) @method_name (#match? @method_name \"set|get|post|put|delete\"))"@],
    {
        let mut r: Vec<String> = Vec::new();
        r.push("(function_declaration (simple_identifier) @method_name (#match? @method_name \"set|get|post|put|delete\"))".to_owned());
        proof {
            assert(string_views(r@)
                =~= seq!["(function_declaration (simple_identifier) @method_name (#match? @method_name \"set|get|post|put|delete\"))"@]);
        }
        r
    }

    /// The data-model pattern: type definitions.
    pub fn data_model_query(&self) -> (r: Option<String>)
        ensures
            r matches Some(q) ==> q@ == "(class_declaration (type_identifier) @STRUCT_NAME) @STRUCT"@,
            r is Some,
    {
        Some("(class_declaration (type_identifier) @STRUCT_NAME) @STRUCT".to_owned())
    }

    /// The data-model-usage pattern: capitalized names in declarations and
    /// calls.
    pub fn data_model_within_query(&self) -> (r: Option<String>)
        ensures
            r matches Some(q) ==> q@ == "[(variable_declaration (identifier) @STRUCT_NAME (#match? @STRUCT_NAME \"^[A-Z].*\")) (call_expression function: (identifier) @STRUCT_NAME (#match? @STRUCT_NAME \"^[A-Z].*\"))]"@,
            r is Some,
    {
        Some("[(variable_declaration (identifier) @STRUCT_NAME (#match? @STRUCT_NAME \"^[A-Z].*\")) (call_expression function: (identifier) @STRUCT_NAME (#match? @STRUCT_NAME \"^[A-Z].*\"))]".to_owned())
    }

    /// The test heuristic: a function is a test when its name starts with
    /// `test`.
    pub fn is_test(&self, func_name: &str, _func_file: &str) -> (r: bool)
        ensures
            r == spec_starts_with(func_name@, "test"@),
    {
        str_starts_with(func_name, "test")
    }

    /// The enclosing-class rule: walking the ancestor kinds from the
    /// function outward, the enclosing class is the first ancestor that is
    /// a class declaration; a function not lexically nested in one has no
    /// parent.
    pub fn find_parent_ancestor(&self, ancestor_kinds: &Vec<String>) -> (r: Option<usize>)
        ensures
            match r {
                Some(i) => first_index_where(string_views(ancestor_kinds@),
                    p_str("class_declaration"@)) == Some(i as int),
                None => first_index_where(string_views(ancestor_kinds@),
                    p_str("class_declaration"@)) is None,
            },
    {
        let ghost p = p_str("class_declaration"@);
        let n = ancestor_kinds.len();
        for i in 0..n
            invariant
                p == p_str("class_declaration"@),
                n == ancestor_kinds.len(),
                forall|k: int| 0 <= k < i ==> !p(string_views(ancestor_kinds@)[k]),
        {
            proof {
                assert(string_views(ancestor_kinds@)[i as int] == ancestor_kinds@[i as int]@);
            }
            if str_eq(ancestor_kinds[i].as_str(), "class_declaration") {
                proof {
                    lemma_first_index_is(string_views(ancestor_kinds@), p, i as int);
                }
                return Some(i);
            }
        }
        proof {
            lemma_first_index_none(string_views(ancestor_kinds@), p);
        }
        None
    }

    /// The method-of relation for a function nested in a resolved class.
    pub fn parent_operand(&self, parent_name: &str, func_name: &str, file: &str) -> (r: Operand)
        ensures
            r.source@.name == parent_name@,
            r.source@.file == file@,
            r.target@.name == func_name@,
            r.target@.file == file@,
    {
        Operand {
            source: NodeKeys::new(parent_name, file),
            target: NodeKeys::new(func_name, file),
        }
    }
}

} // verus!
