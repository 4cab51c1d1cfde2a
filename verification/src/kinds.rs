//! The closed vocabulary of syntax node kinds and field names.

use vstd::prelude::*;
use crate::text::str_eq;

verus! {

/// The kinds of syntax node that the index distinguishes. Every other kind that
/// the grammar knows is `Unknown`.
#[derive(Clone, Copy, Debug, PartialEq, Eq, Structural, Hash)]
pub enum NodeKind {
    Class,
    Module,
    Method,
    SingletonMethod,
    Assignment,
    Program,
    Comment,
    Call,
    Constant,
    LeftAssignmentList,
    GlobalVariable,
    ScopeResolution,
    ClassVariable,
    InstanceVariable,
    Identifier,
    RestAssignment,
    OptionalParameter,
    KeywordParameter,
    Zelf,
    Unknown,
}

/// The field names under which a node holds the children that the index reads.
#[derive(Clone, Copy, Debug, PartialEq, Eq, Structural, Hash)]
pub enum NodeName {
    Name,
    Superclass,
    Body,
    Scope,
    Left,
    Right,
    Parameters,
    Receiver,
    Method,
    Arguments,
}

impl NodeKind {
    /// The kind that the grammar's name `name` stands for.
    pub open spec fn of(name: Seq<char>) -> NodeKind {
        if name == "class"@ {
            NodeKind::Class
        } else if name == "module"@ {
            NodeKind::Module
        } else if name == "method"@ {
            NodeKind::Method
        } else if name == "singleton_method"@ {
            NodeKind::SingletonMethod
        } else if name == "assignment"@ {
            NodeKind::Assignment
        } else if name == "program"@ {
            NodeKind::Program
        } else if name == "comment"@ {
            NodeKind::Comment
        } else if name == "call"@ {
            NodeKind::Call
        } else if name == "constant"@ {
            NodeKind::Constant
        } else if name == "left_assignment_list"@ {
            NodeKind::LeftAssignmentList
        } else if name == "global_variable"@ {
            NodeKind::GlobalVariable
        } else if name == "scope_resolution"@ {
            NodeKind::ScopeResolution
        } else if name == "class_variable"@ {
            NodeKind::ClassVariable
        } else if name == "instance_variable"@ {
            NodeKind::InstanceVariable
        } else if name == "identifier"@ {
            NodeKind::Identifier
        } else if name == "rest_assignment"@ {
            NodeKind::RestAssignment
        } else if name == "optional_parameter"@ {
            NodeKind::OptionalParameter
        } else if name == "keyword_parameter"@ {
            NodeKind::KeywordParameter
        } else if name == "self"@ {
            NodeKind::Zelf
        } else {
            NodeKind::Unknown
        }
    }

    /// Classifies a grammar kind name. Total: a name outside the vocabulary is
    /// `Unknown`.
    pub fn classify(name: &str) -> (kind: NodeKind)
        ensures
            kind == NodeKind::of(name@),
    {
        if str_eq(name, "class") {
            NodeKind::Class
        } else if str_eq(name, "module") {
            NodeKind::Module
        } else if str_eq(name, "method") {
            NodeKind::Method
        } else if str_eq(name, "singleton_method") {
            NodeKind::SingletonMethod
        } else if str_eq(name, "assignment") {
            NodeKind::Assignment
        } else if str_eq(name, "program") {
            NodeKind::Program
        } else if str_eq(name, "comment") {
            NodeKind::Comment
        } else if str_eq(name, "call") {
            NodeKind::Call
        } else if str_eq(name, "constant") {
            NodeKind::Constant
        } else if str_eq(name, "left_assignment_list") {
            NodeKind::LeftAssignmentList
        } else if str_eq(name, "global_variable") {
            NodeKind::GlobalVariable
        } else if str_eq(name, "scope_resolution") {
            NodeKind::ScopeResolution
        } else if str_eq(name, "class_variable") {
            NodeKind::ClassVariable
        } else if str_eq(name, "instance_variable") {
            NodeKind::InstanceVariable
        } else if str_eq(name, "identifier") {
            NodeKind::Identifier
        } else if str_eq(name, "rest_assignment") {
            NodeKind::RestAssignment
        } else if str_eq(name, "optional_parameter") {
            NodeKind::OptionalParameter
        } else if str_eq(name, "keyword_parameter") {
            NodeKind::KeywordParameter
        } else if str_eq(name, "self") {
            NodeKind::Zelf
        } else {
            NodeKind::Unknown
        }
    }

    /// The grammar's name for the kind. `Unknown` stands for no name of the
    /// grammar; its word is classified as `Unknown` like any other.
    pub fn as_str(&self) -> (name: &'static str)
        ensures
            NodeKind::of(name@) == *self,
    {
        proof {
            reveal_strlit("class");
            reveal_strlit("module");
            reveal_strlit("method");
            reveal_strlit("singleton_method");
            reveal_strlit("assignment");
            reveal_strlit("program");
            reveal_strlit("comment");
            reveal_strlit("call");
            reveal_strlit("constant");
            reveal_strlit("left_assignment_list");
            reveal_strlit("global_variable");
            reveal_strlit("scope_resolution");
            reveal_strlit("class_variable");
            reveal_strlit("instance_variable");
            reveal_strlit("identifier");
            reveal_strlit("rest_assignment");
            reveal_strlit("optional_parameter");
            reveal_strlit("keyword_parameter");
            reveal_strlit("self");
            reveal_strlit("unknown");
            assert("class"@.len() == 5);
            assert("module"@.len() == 6);
            assert("method"@.len() == 6);
            assert("singleton_method"@.len() == 16);
            assert("assignment"@.len() == 10);
            assert("program"@.len() == 7);
            assert("comment"@.len() == 7);
            assert("call"@.len() == 4);
            assert("constant"@.len() == 8);
            assert("left_assignment_list"@.len() == 20);
            assert("global_variable"@.len() == 15);
            assert("scope_resolution"@.len() == 16);
            assert("class_variable"@.len() == 14);
            assert("instance_variable"@.len() == 17);
            assert("identifier"@.len() == 10);
            assert("rest_assignment"@.len() == 15);
            assert("optional_parameter"@.len() == 18);
            assert("keyword_parameter"@.len() == 17);
            assert("self"@.len() == 4);
            assert("unknown"@.len() == 7);
            assert("module"@[1] != "method"@[1]);
            assert("singleton_method"@[1] != "scope_resolution"@[1]);
            assert("assignment"@[0] != "identifier"@[0]);
            assert("program"@[0] != "comment"@[0]);
            assert("program"@[0] != "unknown"@[0]);
            assert("comment"@[0] != "unknown"@[0]);
            assert("call"@[0] != "self"@[0]);
            assert("global_variable"@[0] != "rest_assignment"@[0]);
            assert("instance_variable"@[0] != "keyword_parameter"@[0]);
        }
        match self {
            NodeKind::Class => "class",
            NodeKind::Module => "module",
            NodeKind::Method => "method",
            NodeKind::SingletonMethod => "singleton_method",
            NodeKind::Assignment => "assignment",
            NodeKind::Program => "program",
            NodeKind::Comment => "comment",
            NodeKind::Call => "call",
            NodeKind::Constant => "constant",
            NodeKind::LeftAssignmentList => "left_assignment_list",
            NodeKind::GlobalVariable => "global_variable",
            NodeKind::ScopeResolution => "scope_resolution",
            NodeKind::ClassVariable => "class_variable",
            NodeKind::InstanceVariable => "instance_variable",
            NodeKind::Identifier => "identifier",
            NodeKind::RestAssignment => "rest_assignment",
            NodeKind::OptionalParameter => "optional_parameter",
            NodeKind::KeywordParameter => "keyword_parameter",
            NodeKind::Zelf => "self",
            NodeKind::Unknown => "unknown",
        }
    }

    pub open spec fn classlike(self) -> bool {
        self == NodeKind::Class || self == NodeKind::Module
    }

    pub fn is_classlike(&self) -> (r: bool)
        ensures
            r == self.classlike(),
    {
        matches!(self, NodeKind::Class | NodeKind::Module)
    }
}

impl NodeName {
    /// The field that the grammar's field name `name` stands for, if the index
    /// reads it.
    pub open spec fn of(name: Seq<char>) -> Option<NodeName> {
        if name == "name"@ {
            Some(NodeName::Name)
        } else if name == "superclass"@ {
            Some(NodeName::Superclass)
        } else if name == "body"@ {
            Some(NodeName::Body)
        } else if name == "scope"@ {
            Some(NodeName::Scope)
        } else if name == "left"@ {
            Some(NodeName::Left)
        } else if name == "right"@ {
            Some(NodeName::Right)
        } else if name == "parameters"@ {
            Some(NodeName::Parameters)
        } else if name == "receiver"@ {
            Some(NodeName::Receiver)
        } else if name == "method"@ {
            Some(NodeName::Method)
        } else if name == "arguments"@ {
            Some(NodeName::Arguments)
        } else {
            None
        }
    }

    /// Classifies a grammar field name.
    pub fn classify(name: &str) -> (field: Option<NodeName>)
        ensures
            field == NodeName::of(name@),
    {
        if str_eq(name, "name") {
            Some(NodeName::Name)
        } else if str_eq(name, "superclass") {
            Some(NodeName::Superclass)
        } else if str_eq(name, "body") {
            Some(NodeName::Body)
        } else if str_eq(name, "scope") {
            Some(NodeName::Scope)
        } else if str_eq(name, "left") {
            Some(NodeName::Left)
        } else if str_eq(name, "right") {
            Some(NodeName::Right)
        } else if str_eq(name, "parameters") {
            Some(NodeName::Parameters)
        } else if str_eq(name, "receiver") {
            Some(NodeName::Receiver)
        } else if str_eq(name, "method") {
            Some(NodeName::Method)
        } else if str_eq(name, "arguments") {
            Some(NodeName::Arguments)
        } else {
            None
        }
    }

    /// The grammar's name for the field.
    pub open spec fn grammar_name(self) -> Seq<char> {
        match self {
            NodeName::Name => "name"@,
            NodeName::Superclass => "superclass"@,
            NodeName::Body => "body"@,
            NodeName::Scope => "scope"@,
            NodeName::Left => "left"@,
            NodeName::Right => "right"@,
            NodeName::Parameters => "parameters"@,
            NodeName::Receiver => "receiver"@,
            NodeName::Method => "method"@,
            NodeName::Arguments => "arguments"@,
        }
    }

    /// The fields in the order in which they are listed.
    pub open spec fn at(place: int) -> Option<NodeName> {
        if place == 0 {
            Some(NodeName::Name)
        } else if place == 1 {
            Some(NodeName::Superclass)
        } else if place == 2 {
            Some(NodeName::Body)
        } else if place == 3 {
            Some(NodeName::Scope)
        } else if place == 4 {
            Some(NodeName::Left)
        } else if place == 5 {
            Some(NodeName::Right)
        } else if place == 6 {
            Some(NodeName::Parameters)
        } else if place == 7 {
            Some(NodeName::Receiver)
        } else if place == 8 {
            Some(NodeName::Method)
        } else if place == 9 {
            Some(NodeName::Arguments)
        } else {
            None
        }
    }

    /// The field at `place` in the order in which the fields are listed.
    pub fn in_order(place: usize) -> (field: Option<NodeName>)
        ensures
            field == NodeName::at(place as int),
    {
        match place {
            0 => Some(NodeName::Name),
            1 => Some(NodeName::Superclass),
            2 => Some(NodeName::Body),
            3 => Some(NodeName::Scope),
            4 => Some(NodeName::Left),
            5 => Some(NodeName::Right),
            6 => Some(NodeName::Parameters),
            7 => Some(NodeName::Receiver),
            8 => Some(NodeName::Method),
            9 => Some(NodeName::Arguments),
            _ => None,
        }
    }

    /// The grammar's name for the field.
    pub fn as_str(&self) -> (name: &'static str)
        ensures
            NodeName::of(name@) == Some(*self),
            name@ == self.grammar_name(),
    {
        proof {
            reveal_strlit("name");
            reveal_strlit("superclass");
            reveal_strlit("body");
            reveal_strlit("scope");
            reveal_strlit("left");
            reveal_strlit("right");
            reveal_strlit("parameters");
            reveal_strlit("receiver");
            reveal_strlit("method");
            reveal_strlit("arguments");
            assert("name"@.len() == 4);
            assert("superclass"@.len() == 10);
            assert("body"@.len() == 4);
            assert("scope"@.len() == 5);
            assert("left"@.len() == 4);
            assert("right"@.len() == 5);
            assert("parameters"@.len() == 10);
            assert("receiver"@.len() == 8);
            assert("method"@.len() == 6);
            assert("arguments"@.len() == 9);
            assert("name"@[0] != "body"@[0]);
            assert("name"@[0] != "left"@[0]);
            assert("superclass"@[0] != "parameters"@[0]);
            assert("body"@[0] != "left"@[0]);
            assert("scope"@[0] != "right"@[0]);
        }
        match self {
            NodeName::Name => "name",
            NodeName::Superclass => "superclass",
            NodeName::Body => "body",
            NodeName::Scope => "scope",
            NodeName::Left => "left",
            NodeName::Right => "right",
            NodeName::Parameters => "parameters",
            NodeName::Receiver => "receiver",
            NodeName::Method => "method",
            NodeName::Arguments => "arguments",
        }
    }
}

} // verus!
