//! Name logic: the snake_case file name and lowercased identifier derived
//! from a new script's name, the validity rule for such names, and the
//! choice of a `.gltf` file among directory entries.
//!
//! Unicode case mapping comes from the standard library; the two wrappers
//! below name its results, and everything built from them is verified
//! against those names.

use vstd::prelude::*;
use vstd::string::StrSliceExecFns;
use vstd::string::StringExecFns;

use crate::gltf::FlipError;

verus! {

/// Whether a character has the Unicode uppercase property, as
/// char::is_uppercase reports it.
pub uninterp spec fn is_uppercase_char(c: char) -> bool;

/// The Unicode lowercase mapping of a character, as char::to_lowercase
/// yields it: one to three characters, the character itself when it has no
/// lowercase mapping.
pub uninterp spec fn lowercase_chars(c: char) -> Seq<char>;

/// Relies on char::is_uppercase: true exactly when the character has the
/// Unicode uppercase property.
#[verifier::external_body]
fn char_is_uppercase(c: char) -> (r: bool)
    ensures
        r == is_uppercase_char(c),
{
    c.is_uppercase()
}

/// Relies on char::to_lowercase: yields the Unicode lowercase mapping,
/// which depends on the character alone and is never empty.
#[verifier::external_body]
fn char_lowercase(c: char) -> (r: String)
    ensures
        r@ == lowercase_chars(c),
        r@.len() >= 1,
{
    c.to_lowercase().to_string()
}

/// The snake_case rendering of a name: an underscore before every
/// uppercase character except a leading one, and every character replaced
/// by the first character of its lowercase mapping.
pub open spec fn snake_of(s: Seq<char>) -> Seq<char>
    decreases s.len(),
{
    if s.len() == 0 {
        Seq::empty()
    } else {
        let sep: Seq<char> = if is_uppercase_char(s.last()) && s.len() > 1 {
            seq!['_']
        } else {
            Seq::empty()
        };
        snake_of(s.drop_last()) + sep + seq![lowercase_chars(s.last())[0]]
    }
}

/// Convert a name to snake_case, as its spec `snake_of` describes.
pub fn to_snake_case(s: &str) -> (r: String)
    ensures
        r@ == snake_of(s@),
{
    let n = s.unicode_len();
    let mut result = String::new();
    let mut i: usize = 0;
    while i < n
        invariant
            i <= n,
            n == s@.len(),
            result@ == snake_of(s@.subrange(0, i as int)),
        decreases n - i,
    {
        let c = s.get_char(i);
        if i > 0 && char_is_uppercase(c) {
            result.append("_");
        }
        let low = char_lowercase(c);
        let first = low.as_str().substring_char(0, 1);
        result.append(first);
        proof {
            reveal_strlit("_");
            let t = s@.subrange(0, i + 1 as int);
            assert(t.drop_last() =~= s@.subrange(0, i as int));
            assert(t.last() == s@[i as int]);
            assert(first@ =~= seq![lowercase_chars(c)[0]]);
            assert(result@ =~= snake_of(t));
        }
        i = i + 1;
    }
    proof {
        assert(s@.subrange(0, n as int) =~= s@);
    }
    result
}

/// A script name is acceptable when it is non-empty and starts with an
/// uppercase character.
pub open spec fn valid_script_name(s: Seq<char>) -> bool {
    s.len() > 0 && is_uppercase_char(s[0])
}

/// Whether a script name is acceptable, as its spec `valid_script_name`
/// describes.
pub fn is_valid_script_name(s: &str) -> (r: bool)
    ensures
        r == valid_script_name(s@),
{
    if s.unicode_len() == 0 {
        false
    } else {
        char_is_uppercase(s.get_char(0))
    }
}

/// The name with its first character replaced by that character's full
/// lowercase mapping: the identifier form of a script name.
pub open spec fn lower_first_of(s: Seq<char>) -> Seq<char>
    recommends
        s.len() > 0,
{
    lowercase_chars(s[0]) + s.subrange(1, s.len() as int)
}

/// Lowercase the first character of a non-empty name, keeping the rest.
pub fn lower_first(s: &str) -> (r: String)
    requires
        s@.len() > 0,
    ensures
        r@ == lower_first_of(s@),
{
    let n = s.unicode_len();
    let c = s.get_char(0);
    let mut r = char_lowercase(c);
    let rest = s.substring_char(1, n);
    r.append(rest);
    r
}

/// The file name a new script is written to: its name in snake_case with
/// the `.go` suffix.
pub fn script_file_name(name: &str) -> (r: String)
    ensures
        r@ == snake_of(name@) + ".go"@,
{
    let mut r = to_snake_case(name);
    r.append(".go");
    r
}

/// `i` is the split point of a `gltf` extension: a dot that is neither the
/// first character nor followed by another dot, with exactly `gltf` after
/// it.
pub open spec fn extension_split_at(name: Seq<char>, i: int) -> bool {
    &&& 0 < i < name.len()
    &&& name[i] == '.'
    &&& forall|j: int| i < j < name.len() ==> name[j] != '.'
    &&& name.subrange(i + 1, name.len() as int) == "gltf"@
}

/// Whether a file name has the extension `gltf`: the part after its last
/// dot, provided that dot does not start the name.
pub open spec fn has_gltf_extension(name: Seq<char>) -> bool {
    exists|i: int| extension_split_at(name, i)
}

/// Whether a file name has the extension `gltf`, as its spec
/// `has_gltf_extension` describes.
pub fn has_gltf_ext(name: &str) -> (r: bool)
    ensures
        r == has_gltf_extension(name@),
{
    let n = name.unicode_len();
    let mut m: usize = 0;
    let mut last_dot: usize = 0;
    let mut has_dot = false;
    while m < n
        invariant
            m <= n,
            n == name@.len(),
            has_dot ==> last_dot < m && name@[last_dot as int] == '.' && (forall|j: int|
                last_dot < j < m ==> name@[j] != '.'),
            !has_dot ==> forall|j: int| 0 <= j < m ==> name@[j] != '.',
        decreases n - m,
    {
        let c = name.get_char(m);
        if c == '.' {
            has_dot = true;
            last_dot = m;
        }
        m = m + 1;
    }
    if !has_dot || last_dot == 0 {
        proof {
            if has_gltf_extension(name@) {
                let i = choose|i: int| extension_split_at(name@, i);
                assert(name@[i] == '.');
            }
        }
        return false;
    }
    let suffix: String = name.substring_char(last_dot + 1, n).to_owned();
    let target: String = "gltf".to_owned();
    let matched = suffix == target;
    proof {
        if matched {
            assert(extension_split_at(name@, last_dot as int));
        } else {
            if has_gltf_extension(name@) {
                let i = choose|i: int| extension_split_at(name@, i);
                if i < last_dot as int {
                    assert(name@[last_dot as int] == '.');
                    assert(false);
                }
                if i > last_dot as int {
                    assert(name@[i] == '.');
                    assert(false);
                }
                assert(suffix@ == name@.subrange(i + 1, name@.len() as int));
                assert(false);
            }
        }
    }
    matched
}

/// Choose the `.gltf` file among directory entry names: the first entry
/// with that extension, or `NotFound` when no entry has it.
pub fn pick_gltf(names: &Vec<String>) -> (r: Result<usize, FlipError>)
    ensures
        match r {
            Ok(i) => i < names@.len() && has_gltf_extension(names@[i as int]@) && (forall|j: int|
                0 <= j < i ==> !has_gltf_extension(names@[j]@)),
            Err(e) => e is NotFound && (forall|j: int|
                0 <= j < names@.len() ==> !has_gltf_extension(names@[j]@)),
        },
{
    let n = names.len();
    let mut k: usize = 0;
    while k < n
        invariant
            k <= n,
            n == names@.len(),
            forall|j: int| 0 <= j < k ==> !has_gltf_extension(names@[j]@),
        decreases n - k,
    {
        if has_gltf_ext(names[k].as_str()) {
            return Ok(k);
        }
        k = k + 1;
    }
    Err(FlipError::NotFound)
}

} // verus!
