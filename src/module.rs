//! Modules of the target: naming one for removal, registering synthetic
//! ones, and reading the names found by walking the module list.
use crate::error::DbgError;
use crate::text::{cstring_result, encode_text};
use vstd::prelude::*;
use vstd::string::*;
use vstd::utf8::*;

verus! {

/// A module, by base address or by name.
#[derive(Debug, Clone, PartialEq, Eq)]
pub enum Module {
    /// A module identified by its base address.
    Address(u64),
    /// A module identified by its name.
    Name(String),
}

impl Module {
    /// The module of the given name.
    pub fn from_name(name: &str) -> (r: Module)
        ensures
            r matches Module::Name(n) && n@ == name@,
    {
        Module::Name(name.to_owned())
    }
}

impl From<u64> for Module {
    fn from(addr: u64) -> (r: Module) {
        Module::Address(addr)
    }
}

impl vstd::std_specs::convert::FromSpecImpl<u64> for Module {
    open spec fn obeys_from_spec() -> bool {
        true
    }

    open spec fn from_spec(addr: u64) -> Module {
        Module::Address(addr)
    }
}

impl From<&str> for Module {
    fn from(name: &str) -> (r: Module) {
        Module::from_name(name)
    }
}

// No spec value stands for the `String` that is made of a `&str`: what this
// conversion gives is stated by `Module::from_name`.
impl vstd::std_specs::convert::FromSpecImpl<&str> for Module {
    open spec fn obeys_from_spec() -> bool {
        false
    }

    open spec fn from_spec(name: &str) -> Module {
        arbitrary()
    }
}

/// The next engine call that removing a module takes.
#[derive(Debug, Clone, PartialEq, Eq)]
pub enum RemovalCall {
    /// Remove the synthetic module at this base address.
    RemoveAt(u64),
    /// Look up the base address of the module of this NUL-terminated name.
    ResolveName(Vec<u8>),
}

/// The base address whose module a removal takes away, once known: the
/// address itself, or what the name lookup resolved.
pub open spec fn removal_target(module: Module, resolved: Option<u64>) -> Option<u64> {
    match module {
        Module::Address(a) => Some(a),
        Module::Name(_) => resolved,
    }
}

/// What deciding the next call of a removal gives: the removal itself once
/// the base address is known, else the lookup of the encoded name, or the
/// error of encoding it.
pub open spec fn removal_step_result(
    module: Module,
    resolved: Option<u64>,
    r: Result<RemovalCall, DbgError>,
) -> bool {
    match removal_target(module, resolved) {
        Some(a) => r == Ok::<RemovalCall, DbgError>(RemovalCall::RemoveAt(a)),
        None => match module {
            Module::Name(n) => match r {
                Ok(RemovalCall::ResolveName(c)) => cstring_result(encode_utf8(n@), Ok(c)),
                Ok(RemovalCall::RemoveAt(_)) => false,
                Err(e) => cstring_result(encode_utf8(n@), Err(e)),
            },
            Module::Address(_) => false,
        },
    }
}

/// Decides the next call of removing `module`, given what the name lookup
/// resolved (`None` while no lookup has been made). A module given by address
/// is removed at once; one given by name is looked up first, then removed at
/// the base address found.
pub fn removal_step(module: &Module, resolved: Option<u64>) -> (r: Result<RemovalCall, DbgError>)
    ensures
        removal_step_result(*module, resolved, r),
{
    match module {
        Module::Address(a) => Ok(RemovalCall::RemoveAt(*a)),
        Module::Name(n) => match resolved {
            Some(b) => Ok(RemovalCall::RemoveAt(b)),
            None => {
                let encoded = encode_text(n.as_str());
                match encoded {
                    Ok(c) => Ok(RemovalCall::ResolveName(c)),
                    Err(e) => Err(e),
                }
            },
        },
    }
}

/// A synthetic module ready to be registered with the engine.
#[derive(Debug, Clone, PartialEq, Eq)]
pub struct SyntheticModule {
    /// Base address of the module.
    pub base: u64,
    /// Size of the module in bytes.
    pub size: u32,
    /// Canonical image path, NUL-terminated.
    pub image_path: Vec<u8>,
    /// Module name, NUL-terminated.
    pub module_name: Vec<u8>,
}

/// What registering a synthetic module gives, step by step: the name is
/// encoded, then the canonical path is taken, refused when it is no text,
/// and encoded.
pub open spec fn registration_result(
    base: u64,
    size: u32,
    name: Seq<u8>,
    canonical_path: Result<Option<Seq<u8>>, DbgError>,
    r: Result<SyntheticModule, DbgError>,
) -> bool {
    match r {
        Ok(m) => {
            &&& m.base == base
            &&& m.size == size
            &&& cstring_result(name, Ok(m.module_name))
            &&& canonical_path matches Ok(Some(p)) && cstring_result(p, Ok(m.image_path))
        },
        Err(e) => {
            ||| cstring_result(name, Err(e))
            ||| {
                &&& crate::text::is_nul_free(name)
                &&& match canonical_path {
                    Err(pe) => e == pe,
                    Ok(None) => e == DbgError::DbgGeneralError("Invalid Image Path"),
                    Ok(Some(p)) => cstring_result(p, Err(e)),
                }
            }
        },
    }
}

/// The bytes of a canonical path given as text.
pub open spec fn path_bytes(p: Result<Option<&str>, DbgError>) -> Result<Option<Seq<u8>>, DbgError> {
    match p {
        Ok(Some(s)) => Ok(Some(s.spec_bytes())),
        Ok(None) => Ok(None),
        Err(e) => Err(e),
    }
}

/// Builds the registration of a synthetic module at `base`, the value its
/// base expression evaluated to. `canonical_path` is what canonicalizing the
/// image path gave: its text, `None` when it is no text, or the I/O error.
pub fn synthetic_module(
    base: u64,
    size: u32,
    name: &str,
    canonical_path: Result<Option<&str>, DbgError>,
) -> (r: Result<SyntheticModule, DbgError>)
    ensures
        registration_result(base, size, name.spec_bytes(), path_bytes(canonical_path), r),
{
    let module_name = match encode_text(name) {
        Ok(c) => c,
        Err(e) => return Err(e),
    };
    let path = match canonical_path {
        Ok(Some(p)) => p,
        Ok(None) => return Err(DbgError::DbgGeneralError("Invalid Image Path")),
        Err(e) => return Err(e),
    };
    let image_path = match encode_text(path) {
        Ok(c) => c,
        Err(e) => return Err(e),
    };
    Ok(SyntheticModule { base, size, image_path, module_name })
}

/// Removing a module by name removes the module that removing by address
/// would: the lookup asked for is that of the name the synthetic module was
/// registered under, and once it resolves to the base the module was
/// registered at, both removals make the same call.
pub proof fn lemma_removal_by_name_matches_address(
    m: SyntheticModule,
    name: String,
    lookup: Result<RemovalCall, DbgError>,
    by_name: Result<RemovalCall, DbgError>,
    by_address: Result<RemovalCall, DbgError>,
)
    requires
        cstring_result(encode_utf8(name@), Ok(m.module_name)),
        removal_step_result(Module::Name(name), None, lookup),
        removal_step_result(Module::Name(name), Some(m.base), by_name),
        removal_step_result(Module::Address(m.base), None, by_address),
    ensures
        lookup matches Ok(RemovalCall::ResolveName(c)) && c@ == m.module_name@,
        by_name == by_address,
        by_address == Ok::<RemovalCall, DbgError>(RemovalCall::RemoveAt(m.base)),
{
    if let Err(e) = lookup {
        let i = choose|i: int| crate::text::first_nul_at(encode_utf8(name@), i) && e == DbgError::InvalidString(i as usize);
        assert(encode_utf8(name@)[i] == 0);
    }
}

/// The marker in the names of unloaded modules.
pub open spec fn unloaded_marker() -> Seq<char> {
    seq!['<', 'U', 'n', 'l', 'o', 'a', 'd', 'e', 'd', '_']
}

/// `part` stands in `s` at position `i`.
pub open spec fn occurs_at(s: Seq<char>, part: Seq<char>, i: int) -> bool {
    0 <= i && i + part.len() <= s.len() && s.subrange(i, i + part.len()) == part
}

/// The name is that of an unloaded module.
pub open spec fn is_unloaded(name: Seq<char>) -> bool {
    exists|i: int| occurs_at(name, unloaded_marker(), i)
}

/// Length of the module part of a `module!symbol` name: what stands before
/// the first `!`.
pub open spec fn segment_len(name: Seq<char>) -> nat
    decreases name.len(),
{
    if name.len() == 0 {
        0
    } else if name[0] == '!' {
        0
    } else {
        1 + segment_len(name.drop_first())
    }
}

/// The module part of a `module!symbol` name.
pub open spec fn module_segment(name: Seq<char>) -> Seq<char> {
    name.take(segment_len(name) as int)
}

/// The name that stands for a module whose name could not be resolved.
pub open spec fn unknown_name() -> Seq<char> {
    seq!['<', 'u', 'n', 'k', 'n', 'o', 'w', 'n', '>']
}

/// The name read for one module index.
pub open spec fn resolved_name(name: Option<String>) -> Seq<char> {
    match name {
        Some(s) => s@,
        None => unknown_name(),
    }
}

/// The module parts of the names of loaded modules, in the order found.
pub open spec fn loaded_names(names: Seq<Option<String>>) -> Seq<Seq<char>>
    decreases names.len(),
{
    if names.len() == 0 {
        seq![]
    } else {
        let prev = loaded_names(names.drop_last());
        let last = resolved_name(names.last());
        if is_unloaded(last) {
            prev
        } else {
            prev.push(module_segment(last))
        }
    }
}

/// How many of the names are those of loaded modules.
pub open spec fn loaded_count(names: Seq<Option<String>>) -> nat
    decreases names.len(),
{
    if names.len() == 0 {
        0
    } else {
        loaded_count(names.drop_last()) + if is_unloaded(resolved_name(names.last())) {
            0nat
        } else {
            1nat
        }
    }
}

proof fn lemma_segment_len(name: Seq<char>, k: int)
    requires
        0 <= k <= name.len(),
        forall|j: int| 0 <= j < k ==> name[j] != '!',
        k == name.len() || name[k] == '!',
    ensures
        segment_len(name) == k,
    decreases k,
{
    if k > 0 {
        lemma_segment_len(name.drop_first(), k - 1);
    }
}

/// Tells whether `name` is that of an unloaded module.
pub fn is_unloaded_name(name: &str) -> (b: bool)
    ensures
        b == is_unloaded(name@),
{
    let marker = "<Unloaded_";
    proof {
        reveal_strlit("<Unloaded_");
    }
    assert(marker@ =~= unloaded_marker());
    let n = name.unicode_len();
    let m = marker.unicode_len();
    let mut i: usize = 0;
    while i < n && m <= n - i
        invariant
            i <= n,
            n == name@.len(),
            m == 10,
            marker@ == unloaded_marker(),
            forall|j: int| 0 <= j < i ==> !occurs_at(name@, unloaded_marker(), j),
        decreases n - i,
    {
        let mut k: usize = 0;
        while k < m && name.get_char(i + k) == marker.get_char(k)
            invariant
                k <= m,
                i + m <= n,
                n == name@.len(),
                m == 10,
                marker@ == unloaded_marker(),
                forall|j: int| 0 <= j < k ==> name@[i + j] == marker@[j],
            decreases m - k,
        {
            k = k + 1;
        }
        if k == m {
            assert(name@.subrange(i as int, i + m) =~= unloaded_marker());
            assert(occurs_at(name@, unloaded_marker(), i as int));
            return true;
        }
        assert(name@.subrange(i as int, i + m)[k as int] != unloaded_marker()[k as int]);
        i = i + 1;
    }
    assert forall|j: int| !occurs_at(name@, unloaded_marker(), j) by {
        if 0 <= j && j + 10 <= n {
            assert(j < i);
        }
    }
    false
}

/// The module part of a `module!symbol` name: what stands before the first `!`.
pub fn module_segment_of(name: &str) -> (r: String)
    ensures
        r@ == module_segment(name@),
{
    let n = name.unicode_len();
    let mut k: usize = 0;
    while k < n && name.get_char(k) != '!'
        invariant
            k <= n,
            n == name@.len(),
            forall|j: int| 0 <= j < k ==> name@[j] != '!',
        decreases n - k,
    {
        k = k + 1;
    }
    proof {
        lemma_segment_len(name@, k as int);
    }
    name.substring_char(0, k).to_owned()
}

/// Reads the names found by walking the module list from index 0 until a
/// lookup failed (`None` for a module whose name could not be resolved, which
/// reads `<unknown>`): the module parts of the loaded modules' names, in
/// order, skipping unloaded modules.
pub fn loaded_module_names(names: &Vec<Option<String>>) -> (r: Vec<String>)
    ensures
        r@.map_values(|s: String| s@) == loaded_names(names@),
{
    let mut r: Vec<String> = Vec::new();
    let mut i: usize = 0;
    while i < names.len()
        invariant
            i <= names@.len(),
            r@.map_values(|s: String| s@) == loaded_names(names@.take(i as int)),
        decreases names@.len() - i,
    {
        let ghost before = r@;
        let name = match &names[i] {
            Some(s) => s.clone(),
            None => {
                proof {
                    reveal_strlit("<unknown>");
                }
                let u = "<unknown>".to_owned();
                assert(u@ =~= unknown_name());
                u
            },
        };
        assert(name@ == resolved_name(names@[i as int]));
        assert(names@.take(i + 1).drop_last() =~= names@.take(i as int));
        if !is_unloaded_name(name.as_str()) {
            r.push(module_segment_of(name.as_str()));
            assert(r@.map_values(|s: String| s@) =~= before.map_values(|s: String| s@).push(
                module_segment(name@),
            ));
        }
        i = i + 1;
    }
    assert(names@.take(i as int) =~= names@);
    r
}

/// The module part of a loaded module's name holds no unloaded marker.
proof fn lemma_segment_loaded(name: Seq<char>)
    requires
        !is_unloaded(name),
    ensures
        !is_unloaded(module_segment(name)),
{
    let seg = module_segment(name);
    assert(segment_len(name) <= name.len()) by {
        lemma_segment_len_bound(name);
    }
    assert forall|i: int| !occurs_at(seg, unloaded_marker(), i) by {
        if occurs_at(seg, unloaded_marker(), i) {
            assert(name.subrange(i, i + 10) =~= seg.subrange(i, i + 10));
            assert(occurs_at(name, unloaded_marker(), i));
        }
    }
}

proof fn lemma_segment_len_bound(name: Seq<char>)
    ensures
        segment_len(name) <= name.len(),
    decreases name.len(),
{
    if name.len() > 0 {
        lemma_segment_len_bound(name.drop_first());
    }
}

/// Walking the module list over a target whose names hold `loaded_count`
/// loaded modules, and any number of unloaded ones, yields exactly that many
/// names, none of which holds the unloaded marker.
pub proof fn lemma_listing_counts_loaded(names: Seq<Option<String>>)
    ensures
        loaded_names(names).len() == loaded_count(names),
        forall|j: int|
            0 <= j < loaded_names(names).len() ==> !is_unloaded(#[trigger] loaded_names(names)[j]),
    decreases names.len(),
{
    if names.len() > 0 {
        lemma_listing_counts_loaded(names.drop_last());
        let last = resolved_name(names.last());
        if !is_unloaded(last) {
            lemma_segment_loaded(last);
            let prev = loaded_names(names.drop_last());
            assert forall|j: int|
                0 <= j < loaded_names(names).len() implies !is_unloaded(
                #[trigger] loaded_names(names)[j],
            ) by {
                if j < prev.len() {
                    assert(loaded_names(names)[j] == prev[j]);
                }
            }
        }
    }
}

} // verus!
