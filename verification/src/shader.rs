//! Splitting of a combined shader source into its stages.
//!
//! The source holds the vertex shader, then a line that starts with `###`
//! followed by the fragment shader, and optionally another such line
//! followed by the geometry shader.
use vstd::prelude::*;
use vstd::string::*;
use crate::text::{occurs_at, chars_of};

verus! {

/// Why a combined shader source could not be used.
#[derive(Debug, PartialEq, Eq)]
pub enum ShaderError<E> {
    /// There is no `###` marker.
    MarkerNotFound,
    /// A `###` marker is not followed by an end of line.
    MarkerNotValid,
    /// Building the program from the pieces failed.
    Build(E),
}

/// The first position at or after `start` where `needle` occurs in `hay`.
pub open spec fn find_from(hay: Seq<char>, needle: Seq<char>, start: int) -> Option<int>
    decreases hay.len() + 1 - start,
{
    if start < 0 || start + needle.len() > hay.len() {
        None
    } else if occurs_at(hay, needle, start) {
        Some(start)
    } else {
        find_from(hay, needle, start + 1)
    }
}

/// The first position where `needle` occurs in `hay`.
pub open spec fn find_first(hay: Seq<char>, needle: Seq<char>) -> Option<int> {
    find_from(hay, needle, 0)
}

/// The shader marker.
pub open spec fn marker() -> Seq<char> {
    seq!['#', '#', '#']
}

/// The end of line.
pub open spec fn newline() -> Seq<char> {
    seq!['\n']
}

/// The pieces of a combined source: vertex, fragment and optional geometry
/// sources, or the reason they cannot be told apart.
///
/// The vertex source is what precedes the first marker. The fragment source
/// starts at the end of line that follows that marker (that end of line
/// included) and runs up to the next marker, if any; the geometry source
/// starts at the end of line that follows that second marker.
pub open spec fn spec_split_shader(src: Seq<char>) -> Result<
    (Seq<char>, Seq<char>, Option<Seq<char>>),
    ShaderError<()>,
> {
    match find_first(src, marker()) {
        None => Err(ShaderError::MarkerNotFound),
        Some(split) => {
            let vertex = src.subrange(0, split);
            let frag0 = src.subrange(split, src.len() as int);
            match find_first(frag0, newline()) {
                None => Err(ShaderError::MarkerNotValid),
                Some(split2) => {
                    let frag = frag0.subrange(split2, frag0.len() as int);
                    match find_first(frag, marker()) {
                        None => Ok((vertex, frag, None)),
                        Some(split3) => {
                            let geom = frag.subrange(split3, frag.len() as int);
                            match find_first(geom, newline()) {
                                None => Err(ShaderError::MarkerNotValid),
                                Some(split4) => Ok(
                                    (
                                        vertex,
                                        frag.subrange(0, split3),
                                        Some(geom.subrange(split4, geom.len() as int)),
                                    ),
                                ),
                            }
                        },
                    }
                },
            }
        },
    }
}

fn find_chars(hay: &Vec<char>, needle: &Vec<char>, start: usize) -> (r: Option<usize>)
    requires
        start <= hay.len(),
        needle.len() > 0,
    ensures
        match r {
            Some(i) => find_from(hay@, needle@, start as int) == Some(i as int),
            None => find_from(hay@, needle@, start as int) is None,
        },
    decreases hay.len() + 1 - start,
{
    if needle.len() > hay.len() - start {
        return None;
    }
    let mut j: usize = 0;
    let mut ok = true;
    while j < needle.len()
        invariant
            start + needle.len() <= hay.len(),
            j <= needle.len(),
            ok ==> forall|k: int| 0 <= k < j ==> hay@[start + k] == needle@[k],
            !ok ==> !occurs_at(hay@, needle@, start as int),
        decreases needle.len() - j,
    {
        if ok && hay[start + j] != needle[j] {
            assert(hay@.subrange(start as int, start + needle.len())[j as int] != needle@[j as int]);
            ok = false;
        }
        j = j + 1;
    }
    if ok {
        assert(hay@.subrange(start as int, start + needle.len()) =~= needle@);
        Some(start)
    } else {
        find_chars(hay, needle, start + 1)
    }
}

proof fn lemma_find_from_range(hay: Seq<char>, needle: Seq<char>, start: int)
    ensures
        find_from(hay, needle, start) matches Some(i) ==> start <= i && i + needle.len() <= hay.len(),
    decreases hay.len() + 1 - start,
{
    if !(start < 0 || start + needle.len() > hay.len()) && !occurs_at(hay, needle, start) {
        lemma_find_from_range(hay, needle, start + 1);
    }
}

fn find_in(hay: &str, needle: &Vec<char>) -> (r: Option<usize>)
    requires
        needle.len() > 0,
    ensures
        match r {
            Some(i) => find_first(hay@, needle@) == Some(i as int) && i + needle.len() <= hay@.len(),
            None => find_first(hay@, needle@) is None,
        },
{
    let chars = chars_of(hay);
    proof {
        lemma_find_from_range(hay@, needle@, 0);
    }
    find_chars(&chars, needle, 0)
}

/// Splits the combined source `shaders` into its pieces and builds a
/// program from them with `build` (vertex, fragment, optional geometry).
pub fn gl_program_from_source<P, E, F>(shaders: &str, build: F) -> (r: Result<P, ShaderError<E>>)
    where
        F: FnOnce(&str, &str, Option<&str>) -> Result<P, E>,
    requires
        forall|v: &str, f: &str, g: Option<&str>| call_requires(build, (v, f, g)),
    ensures
        match spec_split_shader(shaders@) {
            Err(ShaderError::MarkerNotFound) => r matches Err(ShaderError::MarkerNotFound),
            Err(_) => r matches Err(ShaderError::MarkerNotValid),
            Ok((v, f, g)) => exists|vs: &str, fs: &str, gs: Option<&str>, out: Result<P, E>|
                {
                    &&& vs@ == v
                    &&& fs@ == f
                    &&& (match gs {
                        Some(x) => g == Some(x@),
                        None => g is None,
                    })
                    &&& call_ensures(build, (vs, fs, gs), out)
                    &&& r == match out {
                        Ok(p) => Ok::<P, ShaderError<E>>(p),
                        Err(e) => Err(ShaderError::Build(e)),
                    }
                },
        },
{
    let mark: Vec<char> = vec!['#', '#', '#'];
    let nl: Vec<char> = vec!['\n'];
    assert(mark@ =~= marker());
    assert(nl@ =~= newline());
    let n = shaders.unicode_len();
    let split = match find_in(shaders, &mark) {
        Some(s) => s,
        None => return Err(ShaderError::MarkerNotFound),
    };
    let vertex = shaders.substring_char(0, split);
    let frag0 = shaders.substring_char(split, n);
    let n0 = frag0.unicode_len();
    let split_2 = match find_in(frag0, &nl) {
        Some(s) => s,
        None => return Err(ShaderError::MarkerNotValid),
    };
    let frag = frag0.substring_char(split_2, n0);
    let n1 = frag.unicode_len();
    let (frag, geom) = match find_in(frag, &mark) {
        Some(split_3) => {
            let geom = frag.substring_char(split_3, n1);
            let n2 = geom.unicode_len();
            let split_4 = match find_in(geom, &nl) {
                Some(s) => s,
                None => return Err(ShaderError::MarkerNotValid),
            };
            (frag.substring_char(0, split_3), Some(geom.substring_char(split_4, n2)))
        },
        None => (frag, None),
    };
    match build(vertex, frag, geom) {
        Ok(p) => Ok(p),
        Err(e) => Err(ShaderError::Build(e)),
    }
}

/// The pieces of a combined source where the end of line that follows each
/// marker is left out: as [`spec_split_shader`], but the fragment and
/// geometry sources start just after that end of line.
pub open spec fn spec_split_shader_lines(src: Seq<char>) -> Result<
    (Seq<char>, Seq<char>, Option<Seq<char>>),
    ShaderError<()>,
> {
    match find_first(src, marker()) {
        None => Err(ShaderError::MarkerNotFound),
        Some(split) => {
            let vertex = src.subrange(0, split);
            let frag0 = src.subrange(split, src.len() as int);
            match find_first(frag0, newline()) {
                None => Err(ShaderError::MarkerNotValid),
                Some(split2) => {
                    let frag = frag0.subrange(split2 + 1, frag0.len() as int);
                    match find_first(frag, marker()) {
                        None => Ok((vertex, frag, None)),
                        Some(split3) => {
                            let geom = frag.subrange(split3, frag.len() as int);
                            match find_first(geom, newline()) {
                                None => Err(ShaderError::MarkerNotValid),
                                Some(split4) => Ok(
                                    (
                                        vertex,
                                        frag.subrange(0, split3),
                                        Some(geom.subrange(split4 + 1, geom.len() as int)),
                                    ),
                                ),
                            }
                        },
                    }
                },
            }
        },
    }
}

/// `piece` with the optional `prefix` in front.
pub open spec fn with_prefix(prefix: Option<Seq<char>>, piece: Seq<char>) -> Seq<char> {
    match prefix {
        Some(p) => p + piece,
        None => piece,
    }
}

fn prefixed(prefix: Option<&str>, piece: &str) -> (r: String)
    ensures
        r@ == with_prefix(
            match prefix {
                Some(p) => Some(p@),
                None => None,
            },
            piece@,
        ),
{
    match prefix {
        Some(p) => {
            let mut r = String::from_str(p);
            r.append(piece);
            r
        },
        None => String::from_str(piece),
    }
}

/// Splits the combined source `shaders` into its pieces, without the end of
/// line after each marker, puts `prefix` (if any) in front of each, and
/// builds a program from them with `build` (vertex, fragment, optional
/// geometry).
pub fn gl_program_from_prefixed_source<P, E, F>(prefix: Option<&str>, shaders: &str, build: F) -> (r:
    Result<P, ShaderError<E>>)
    where
        F: FnOnce(&str, &str, Option<&str>) -> Result<P, E>,
    requires
        forall|v: &str, f: &str, g: Option<&str>| call_requires(build, (v, f, g)),
    ensures
        ({
            let pv = match prefix {
                Some(p) => Some(p@),
                None => None,
            };
            match spec_split_shader_lines(shaders@) {
                Err(ShaderError::MarkerNotFound) => r matches Err(ShaderError::MarkerNotFound),
                Err(_) => r matches Err(ShaderError::MarkerNotValid),
                Ok((v, f, g)) => exists|vs: &str, fs: &str, gs: Option<&str>, out: Result<P, E>|
                    {
                        &&& vs@ == with_prefix(pv, v)
                        &&& fs@ == with_prefix(pv, f)
                        &&& (match gs {
                            Some(x) => g matches Some(gg) && x@ == with_prefix(pv, gg),
                            None => g is None,
                        })
                        &&& call_ensures(build, (vs, fs, gs), out)
                        &&& r == match out {
                            Ok(p) => Ok::<P, ShaderError<E>>(p),
                            Err(e) => Err(ShaderError::Build(e)),
                        }
                    },
            }
        }),
{
    let mark: Vec<char> = vec!['#', '#', '#'];
    let nl: Vec<char> = vec!['\n'];
    assert(mark@ =~= marker());
    assert(nl@ =~= newline());
    let n = shaders.unicode_len();
    let split = match find_in(shaders, &mark) {
        Some(s) => s,
        None => return Err(ShaderError::MarkerNotFound),
    };
    let vertex = shaders.substring_char(0, split);
    let frag0 = shaders.substring_char(split, n);
    let n0 = frag0.unicode_len();
    let split_2 = match find_in(frag0, &nl) {
        Some(s) => s,
        None => return Err(ShaderError::MarkerNotValid),
    };
    let frag = frag0.substring_char(split_2 + 1, n0);
    let n1 = frag.unicode_len();
    let (frag, geom) = match find_in(frag, &mark) {
        Some(split_3) => {
            let geom = frag.substring_char(split_3, n1);
            let n2 = geom.unicode_len();
            let split_4 = match find_in(geom, &nl) {
                Some(s) => s,
                None => return Err(ShaderError::MarkerNotValid),
            };
            (frag.substring_char(0, split_3), Some(geom.substring_char(split_4 + 1, n2)))
        },
        None => (frag, None),
    };
    let vs = prefixed(prefix, vertex);
    let fs = prefixed(prefix, frag);
    let gs = match geom {
        Some(g) => Some(prefixed(prefix, g)),
        None => None,
    };
    let gref = match &gs {
        Some(g) => Some(g.as_str()),
        None => None,
    };
    match build(vs.as_str(), fs.as_str(), gref) {
        Ok(p) => Ok(p),
        Err(e) => Err(ShaderError::Build(e)),
    }
}

} // verus!
