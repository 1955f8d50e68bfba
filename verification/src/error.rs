//! Diagnostics: every semantic problem found in a document is recorded as an
//! [`Error`] carrying a message, the scope (the path of keys leading to the
//! offending value) and the source position.
use crate::doc::Position;
use crate::strings::join_seqs;
use crate::strings::join_strings;
use vstd::prelude::*;

verus! {

/// The mathematical shape of an [`Error`].
#[verifier::ext_equal]
pub enum ErrorV {
    InvalidAnnotation { info: Seq<char>, scope: Seq<Seq<char>>, position: Position },
    InvalidAst { info: Seq<char>, scope: Seq<Seq<char>>, position: Position },
}

/// A diagnostic: a wrongly shaped annotation, or a wrongly shaped value.
#[derive(Debug, PartialEq)]
pub enum Error {
    /// An annotation is present but its argument has the wrong shape.
    InvalidAnnotation { info: String, scope: Vec<String>, position: Position },
    /// A document value violates what the engine requires of it.
    InvalidAst { info: String, scope: Vec<String>, position: Position },
}

impl View for Error {
    type V = ErrorV;

    open spec fn view(&self) -> ErrorV {
        match self {
            Error::InvalidAnnotation { info, scope, position } => ErrorV::InvalidAnnotation {
                info: info@,
                scope: scope.deep_view(),
                position: *position,
            },
            Error::InvalidAst { info, scope, position } => ErrorV::InvalidAst {
                info: info@,
                scope: scope.deep_view(),
                position: *position,
            },
        }
    }
}

impl DeepView for Error {
    type V = ErrorV;

    open spec fn deep_view(&self) -> ErrorV {
        self.view()
    }
}

/// The abstraction of a fallible result whose error is a diagnostic.
pub open spec fn res_view<T: DeepView>(r: Result<T, Error>) -> Result<T::V, ErrorV> {
    match r {
        Ok(v) => Ok(v.deep_view()),
        Err(e) => Err(e@),
    }
}

/// The message of an annotation-shape diagnostic: the scope path, the
/// annotation's name and the complaint, readable in one line.
pub open spec fn invalid_annotation_v(
    info: Seq<char>,
    name: Seq<char>,
    scope: Seq<Seq<char>>,
    position: Position,
) -> ErrorV {
    ErrorV::InvalidAnnotation {
        info: "annotation("@ + join_seqs(scope, seq!['.']) + "@"@ + name + ") "@ + info,
        scope: scope.push(name),
        position,
    }
}

/// The message of a value-shape diagnostic: the scope path and the complaint.
pub open spec fn invalid_ast_v(info: Seq<char>, scope: Seq<Seq<char>>, position: Position) -> ErrorV {
    ErrorV::InvalidAst {
        info: "value("@ + join_seqs(scope, seq!['.']) + ") "@ + info,
        scope,
        position,
    }
}

/// A copy of a scope vector.
pub fn clone_scope(scope: &Vec<String>) -> (r: Vec<String>)
    ensures
        r@ == scope@,
{
    let mut r: Vec<String> = Vec::new();
    let mut i: usize = 0;
    while i < scope.len()
        invariant
            i <= scope@.len(),
            r@ == scope@.take(i as int),
        decreases scope@.len() - i,
    {
        r.push(scope[i].clone());
        assert(scope@.take(i + 1) =~= scope@.take(i as int).push(scope@[i as int]));
        i = i + 1;
    }
    assert(scope@.take(scope@.len() as int) =~= scope@);
    r
}

impl Error {
    /// A diagnostic for an annotation whose argument has the wrong shape.
    pub fn invalid_annotation(
        info: &str,
        name: &str,
        scope: &Vec<String>,
        position: Position,
    ) -> (r: Error)
        ensures
            r@ == invalid_annotation_v(info@, name@, scope.deep_view(), position),
    {
        let mut s = String::new();
        s.append("annotation(");
        let joined = join_strings(scope, '.');
        s.append(joined.as_str());
        s.append("@");
        s.append(name);
        s.append(") ");
        s.append(info);
        let mut sc = clone_scope(scope);
        sc.push(String::from_str(name));
        proof {
            assert(s@ =~= "annotation("@ + join_seqs(scope.deep_view(), seq!['.']) + "@"@ + name@
                + ") "@ + info@);
            assert(sc.deep_view() =~~= scope.deep_view().push(name@));
        }
        Error::InvalidAnnotation { info: s, scope: sc, position }
    }

    /// A diagnostic for a document value that violates a requirement.
    pub fn invalid_ast(info: &str, scope: &Vec<String>, position: Position) -> (r: Error)
        ensures
            r@ == invalid_ast_v(info@, scope.deep_view(), position),
    {
        let mut s = String::new();
        s.append("value(");
        let joined = join_strings(scope, '.');
        s.append(joined.as_str());
        s.append(") ");
        s.append(info);
        let sc = clone_scope(scope);
        proof {
            assert(s@ =~= "value("@ + join_seqs(scope.deep_view(), seq!['.']) + ") "@ + info@);
            assert(sc.deep_view() =~~= scope.deep_view());
        }
        Error::InvalidAst { info: s, scope: sc, position }
    }
}

/// The scope extended by one segment.
pub fn enter_scope(scope: &Vec<String>, current: &str) -> (r: Vec<String>)
    ensures
        r.deep_view() == scope.deep_view().push(current@),
{
    let mut r = clone_scope(scope);
    r.push(String::from_str(current));
    proof {
        assert(r.deep_view() =~~= scope.deep_view().push(current@));
    }
    r
}

} // verus!
