//! The type vocabulary of the companion code generator's final stage.
//!
//! The generator turns a protocol description into typed request builders
//! and reply structs for this core; [`Type`] is how it writes the type of a
//! field or argument.  A name of the form `owner:Name` refers to a type
//! defined by another protocol module: the part before the first colon is
//! the owning module (folded to lower case), the part after it the type's
//! name within that module.

use vstd::prelude::*;
use vstd::string::StrSliceExecFns;
use vstd::string::StringExecFns;

verus! {

/// A type as the generator's final stage describes it.
#[derive(Debug)]
pub enum Type {
    /// Ordinary type.
    Basic(String),
    /// A path-based type: a type named within an owning module.
    Path { owner: String, name: String },
    /// Array type.
    Array(Box<Type>, u64),
    /// Vector type.
    Vector(Box<Type>),
    /// Inline-storage small-vector type.
    TinyVec(Box<Type>, u64),
    /// Option type.
    Opt(Box<Type>),
    /// Result type of the generated library.
    Res(Box<Type>),
    /// Tuple container type.
    Tuple(Vec<Type>),
    /// Reference to another type, mutable or not, with an optional lifetime.
    Ref(Box<Type>, bool, Option<&'static str>),
    /// Slice of a type.
    Slice(Box<Type>),
}

/// What `str::to_lowercase` returns on a string with these characters: the
/// Unicode lowercase mapping, a function of the characters alone.
pub uninterp spec fn lower_of(s: Seq<char>) -> Seq<char>;

/// Relies on `str::to_lowercase`: its result depends on the characters of
/// its input alone.
#[verifier::external_body]
fn lowercase(s: &str) -> (r: String)
    ensures
        r@ == lower_of(s@),
{
    s.to_lowercase()
}

/// The position of the first colon in `s`, if `s` has one.
fn find_colon(s: &str) -> (r: Option<usize>)
    ensures
        match r {
            Some(i) => i < s@.len() && s@[i as int] == ':' && (forall|j: int|
                0 <= j < i ==> s@[j] != ':'),
            None => forall|j: int| 0 <= j < s@.len() ==> s@[j] != ':',
        },
{
    let n = s.unicode_len();
    let mut k: usize = 0;
    while k < n
        invariant
            k <= n,
            n == s@.len(),
            forall|j: int| 0 <= j < k ==> s@[j] != ':',
        decreases n - k,
    {
        let c = s.get_char(k);
        if c == ':' {
            return Some(k);
        }
        k += 1;
    }
    None
}

/// How a raw type name parses into a [`Type`]: a name without a colon is an
/// ordinary type; otherwise the part before the first colon, folded to
/// lower case, owns the type named by the part after it.
pub open spec fn parsed_name(input: Seq<char>, r: Type) -> bool {
    &&& (forall|j: int| 0 <= j < input.len() ==> input[j] != ':') ==> (r matches Type::Basic(s)
        && s@ == input)
    &&& forall|i: int|
        #![trigger input[i]]
        (0 <= i < input.len() && input[i] == ':' && (forall|j: int| 0 <= j < i ==> input[j] != ':'))
            ==> (r matches Type::Path { owner, name } && owner@ == lower_of(input.subrange(0, i))
            && name@ == input.subrange(i + 1, input.len() as int))
}

impl Type {
    /// Parse a raw type name from the protocol description.
    pub fn from_name(name: String) -> (r: Self)
        ensures
            parsed_name(name@, r),
    {
        match find_colon(name.as_str()) {
            None => Self::Basic(name),
            Some(posn) => {
                let s = name.as_str();
                let n = s.unicode_len();
                let owner_part = s.substring_char(0, posn);
                let name_part = s.substring_char(posn + 1, n);
                let owner = lowercase(owner_part);
                let tname = String::from_str(name_part);
                let r = Self::Path { owner, name: tname };
                proof {
                    assert forall|i: int|
                        (0 <= i < name@.len() && name@[i] == ':' && (forall|j: int|
                            0 <= j < i ==> name@[j] != ':')) implies i == posn by {
                        if i < posn {
                            assert(name@[i] != ':');
                        } else if posn < i {
                            assert(name@[posn as int] != ':');
                        }
                    }
                }
                r
            },
        }
    }

    /// Lower a type of the earlier generator stage into this vocabulary.
    pub fn from_lvl2(ty: crate::lvl2::Type) -> (r: Self)
        ensures
            match ty {
                crate::lvl2::Type::BasicType(bt) => parsed_name(bt@, r),
                crate::lvl2::Type::Array(at, asize) => r matches Type::Array(inner, size)
                    && *inner == Type::Basic(at) && size == asize,
            },
    {
        match ty {
            crate::lvl2::Type::BasicType(bt) => Self::from_name(bt),
            crate::lvl2::Type::Array(at, asize) => Self::Array(Box::new(Type::Basic(at)), asize),
        }
    }
}

} // verus!
