//! The parts of Rust items that the authoring macros look at.
use vstd::prelude::*;
use vstd::string::*;

use crate::authoring::{refused, AuthoringError};
use crate::text;

verus! {

/// A type as it is written.
#[derive(Debug)]
pub struct TypeShape {
    pub source: String,
    /// The path that the type is, if it is one.
    pub path: Option<PathShape>,
}

/// A path of one or more segments.
#[derive(Debug)]
pub struct PathShape {
    /// The path begins with `::`.
    pub leading: bool,
    pub segments: Vec<SegmentShape>,
}

/// One segment of a path.
#[derive(Debug)]
pub struct SegmentShape {
    /// The segment as it is written.
    pub source: String,
    pub ident: String,
    pub arguments: ArgumentsShape,
}

/// The generic arguments of a segment.
#[derive(Debug)]
pub enum ArgumentsShape {
    Absent,
    Angle(Vec<ArgumentShape>),
    Parenthesized,
}

/// One generic argument.
#[derive(Debug)]
pub enum ArgumentShape {
    Type(TypeShape),
    Other,
}

impl PathShape {
    /// A path has at least one segment.
    pub open spec fn wf(self) -> bool {
        self.segments@.len() > 0
    }

    /// The last segment.
    pub open spec fn end(self) -> SegmentShape {
        self.segments@.last()
    }

    /// The path without its last segment, as it is written; none if nothing is left.
    pub open spec fn namespace(self) -> Option<Seq<char>> {
        if self.segments@.len() < 2 {
            None
        } else {
            Some(written(self.leading, self.segments@.drop_last()))
        }
    }

    /// The path as it is written.
    pub open spec fn written(self) -> Seq<char> {
        written(self.leading, self.segments@)
    }
}

impl TypeShape {
    /// Every path in the type has at least one segment.
    pub open spec fn wf(self) -> bool
        decreases self,
    {
        match self.path {
            None => true,
            Some(path) => path.segments@.len() > 0 && forall|i: int| 0 <= i < path.segments@.len() ==> (#[trigger] path.segments@[i]).wf(),
        }
    }
}

impl SegmentShape {
    /// Every path in the arguments has at least one segment.
    pub open spec fn wf(self) -> bool
        decreases self,
    {
        match self.arguments {
            ArgumentsShape::Angle(arguments) => forall|i: int| 0 <= i < arguments@.len() ==> (#[trigger] arguments@[i]).wf(),
            _ => true,
        }
    }
}

impl ArgumentShape {
    /// Every path in the argument has at least one segment.
    pub open spec fn wf(self) -> bool
        decreases self,
    {
        match self {
            ArgumentShape::Type(inner) => inner.wf(),
            ArgumentShape::Other => true,
        }
    }
}

/// Segments with `::` between them, and before the first where the path begins so.
pub open spec fn written(leading: bool, segments: Seq<SegmentShape>) -> Seq<char>
    decreases segments.len(),
{
    if segments.len() == 0 {
        Seq::empty()
    } else {
        let earlier = written(leading, segments.drop_last());
        if segments.len() > 1 || leading {
            earlier + "::"@ + segments.last().source@
        } else {
            segments.last().source@
        }
    }
}

/// Writes the first `n` segments of a path.
fn write_segments(path: &PathShape, n: usize) -> (r: String)
    requires
        n <= path.segments@.len(),
    ensures
        r@ == written(path.leading, path.segments@.take(n as int)),
{
    let mut r = String::new();
    let mut i: usize = 0;
    assert(r@ =~= written(path.leading, path.segments@.take(0)));
    while i < n
        invariant
            i <= n <= path.segments@.len(),
            r@ == written(path.leading, path.segments@.take(i as int)),
        decreases n - i,
    {
        proof {
            let next = path.segments@.take(i + 1);
            assert(next.drop_last() =~= path.segments@.take(i as int));
            assert(next.last() == path.segments@[i as int]);
        }
        if i > 0 || path.leading {
            r.append("::");
        }
        r.append(path.segments[i].source.as_str());
        assert(r@ =~= written(path.leading, path.segments@.take(i + 1)));
        i = i + 1;
    }
    r
}

/// Writes a path.
pub fn write_path(path: &PathShape) -> (r: String)
    ensures
        r@ == path.written(),
{
    assert(path.segments@.take(path.segments@.len() as int) =~= path.segments@);
    write_segments(path, path.segments.len())
}

/// Writes a path without its last segment.
pub fn write_namespace(path: &PathShape) -> (r: Option<String>)
    ensures
        text::opt_text(r) == path.namespace(),
{
    if path.segments.len() < 2 {
        return None;
    }
    assert(path.segments@.take(path.segments@.len() - 1) =~= path.segments@.drop_last());
    Some(write_segments(path, path.segments.len() - 1))
}

/// The type is a path that ends in a plain segment of this name.
pub open spec fn is_named(ty: TypeShape, expected: Seq<char>) -> bool {
    match ty.path {
        None => false,
        Some(path) => path.segments@.len() > 0 && path.end().ident@ == expected && match path.end().arguments {
            ArgumentsShape::Absent => true,
            ArgumentsShape::Angle(arguments) => arguments@.len() == 0,
            ArgumentsShape::Parenthesized => false,
        },
    }
}

/// Decides whether a type is a path that ends in a plain segment of a name.
pub fn is_named_type(ty: &TypeShape, expected: &str) -> (r: bool)
    ensures
        r == is_named(*ty, expected@),
{
    match &ty.path {
        None => false,
        Some(path) => {
            if path.segments.len() == 0 {
                return false;
            }
            let end = &path.segments[path.segments.len() - 1];
            let plain: bool = match &end.arguments {
                ArgumentsShape::Absent => true,
                ArgumentsShape::Angle(arguments) => arguments.len() == 0,
                ArgumentsShape::Parenthesized => false,
            };
            plain && text::same(end.ident.as_str(), expected)
        },
    }
}

/// A method gives back a type whose path ends in `Result`.
pub open spec fn gives_result(output: Option<TypeShape>) -> bool {
    match output {
        Some(ty) => match ty.path {
            Some(path) => path.segments@.len() > 0 && path.end().ident@ == "Result"@,
            None => false,
        },
        None => false,
    }
}

/// Decides whether a method gives back a type whose path ends in `Result`.
pub fn returns_result(output: &Option<TypeShape>) -> (r: bool)
    ensures
        r == gives_result(*output),
{
    match output {
        Some(ty) => match &ty.path {
            Some(path) => path.segments.len() > 0 && text::same(path.segments[path.segments.len() - 1].ident.as_str(), "Result"),
            None => false,
        },
        None => false,
    }
}

/// The one type argument of a segment.
pub open spec fn single_argument(arguments: ArgumentsShape) -> Option<TypeShape> {
    match arguments {
        ArgumentsShape::Angle(items) => if items@.len() == 1 {
            match items@[0] {
                ArgumentShape::Type(inner) => Some(inner),
                ArgumentShape::Other => None,
            }
        } else {
            None
        },
        _ => None,
    }
}

/// Finds the one type argument of a segment.
pub fn single_type_argument<'a>(segment: &'a SegmentShape, message: &str) -> (r: Result<&'a TypeShape, AuthoringError>)
    ensures
        match single_argument(segment.arguments) {
            Some(inner) => r is Ok && *r->Ok_0 == inner,
            None => r is Err && r->Err_0@ == message@,
        },
{
    match &segment.arguments {
        ArgumentsShape::Angle(items) => if items.len() == 1 {
            match &items[0] {
                ArgumentShape::Type(inner) => Ok(inner),
                ArgumentShape::Other => Err(refused(message)),
            }
        } else {
            Err(refused(message))
        },
        _ => Err(refused(message)),
    }
}

/// Whether a character is an upper-case letter of ASCII.
pub open spec fn is_upper(c: char) -> bool {
    'A' <= c && c <= 'Z'
}

/// A character with the case of ASCII taken off.
pub open spec fn lower(c: char) -> char {
    if is_upper(c) {
        ((c as u8) + 32) as char
    } else {
        c
    }
}

/// A name in lower case, with `_` before every capital but the first character.
pub open spec fn snake_case(name: Seq<char>) -> Seq<char>
    decreases name.len(),
{
    if name.len() == 0 {
        name
    } else {
        let earlier = snake_case(name.drop_last());
        let c = name.last();
        if is_upper(c) && name.len() > 1 {
            earlier.push('_').push(lower(c))
        } else {
            earlier.push(lower(c))
        }
    }
}

/// The letter of the alphabet in lower case.
fn lower_letter(c: char) -> (r: &'static str)
    requires
        is_upper(c),
    ensures
        r@ == seq![lower(c)],
{
    let letters = "abcdefghijklmnopqrstuvwxyz";
    proof {
        reveal_strlit("abcdefghijklmnopqrstuvwxyz");
    }
    let n: usize = ((c as u8) - 65) as usize;
    let r = letters.substring_char(n, n + 1);
    assert(r@ =~= seq![lower(c)]);
    r
}

/// Writes a name in lower case, with `_` before every capital but the first character.
pub fn snake(name: &str) -> (r: String)
    ensures
        r@ == snake_case(name@),
{
    let chars = text::chars_of(name);
    let mut r = String::new();
    let mut i: usize = 0;
    proof {
        reveal_strlit("_");
        assert(r@ =~= snake_case(name@.take(0)));
    }
    while i < chars.len()
        invariant
            i <= chars.len(),
            chars@ == name@,
            "_"@ == seq!['_'],
            r@ == snake_case(name@.take(i as int)),
        decreases chars.len() - i,
    {
        let c: char = chars[i];
        let ghost before = r@;
        proof {
            assert(name@.take(i + 1).drop_last() =~= name@.take(i as int));
            assert(name@.take(i + 1).last() == c);
        }
        if 'A' <= c && c <= 'Z' {
            if i > 0 {
                r.append("_");
                assert(r@ =~= before.push('_'));
            }
            r.append(lower_letter(c));
        } else {
            assert(i < chars.len());
            let part = name.substring_char(i, i + 1);
            assert(part@ =~= seq![c]);
            r.append(part);
        }
        assert(r@ =~= snake_case(name@.take(i + 1)));
        i = i + 1;
    }
    assert(name@.take(name@.len() as int) =~= name@);
    r
}

/// A generated name: a prefix and the name in lower case.
pub fn generated_name(prefix: &str, name: &str) -> (r: String)
    ensures
        r@ == prefix@ + snake_case(name@),
{
    text::behind(prefix, snake(name).as_str())
}

} // verus!
