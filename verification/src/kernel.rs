//! The kernel entry points: printing, feature loading, and integer
//! conversion.
//!
//! Printing appends to the interpreter's captured output; feature
//! loading resolves a path against the registered features and runs a
//! feature's registration at most once per load path; integer
//! conversion parses a byte string exactly.

use vstd::prelude::*;
use vstd::string::StringSliceAdditionalSpecFns;

use crate::bstr;
use crate::container;
use crate::exception::{BadArgumentError, Exception, LoadError, TypeError};
use crate::interp::{
    find_scope, reg_find, spec_line, Artichoke, Feature, Instance, ScopeObj, KEY_CONTAINER,
    KEY_SECURE_RANDOM,
};
use crate::securerandom;
use crate::value::{inspect_bytes, spec_inspect, spec_to_s, to_s_bytes, Value};

verus! {

/// The bytes `print` writes for the first `n` arguments: each
/// argument's `to_s` form, nothing between them.
pub open spec fn spec_print_all(
    scopes: Seq<ScopeObj>,
    heap: Seq<Instance>,
    args: Seq<Value>,
    n: int,
) -> Seq<u8>
    decreases n,
{
    if n <= 0 || n > args.len() {
        Seq::empty()
    } else {
        spec_print_all(scopes, heap, args, n - 1) + spec_to_s(scopes, heap, args[n - 1])
    }
}

/// The bytes `puts` writes for one value: arrays are flattened
/// recursively, and every leaf is its `to_s` form terminated by a
/// newline.
pub open spec fn spec_puts_lines(scopes: Seq<ScopeObj>, heap: Seq<Instance>, v: Value) -> Seq<u8>
    decreases v, 0int, 0int,
{
    match v {
        Value::Array(items) => spec_puts_list(scopes, heap, items@, items@.len() as int),
        _ => spec_line(spec_to_s(scopes, heap, v)),
    }
}

/// The bytes `puts` writes for the first `n` values of a flattened
/// array.
pub open spec fn spec_puts_list(
    scopes: Seq<ScopeObj>,
    heap: Seq<Instance>,
    items: Seq<Value>,
    n: int,
) -> Seq<u8>
    decreases items, 1int, n,
{
    if n <= 0 || n > items.len() {
        Seq::empty()
    } else {
        spec_puts_list(scopes, heap, items, n - 1) + spec_puts_lines(scopes, heap, items[n - 1])
    }
}

/// The bytes `p` writes for the first `n` arguments: each argument's
/// `inspect` form terminated by a newline.
pub open spec fn spec_p_lines(
    scopes: Seq<ScopeObj>,
    heap: Seq<Instance>,
    args: Seq<Value>,
    n: int,
) -> Seq<u8>
    decreases n,
{
    if n <= 0 || n > args.len() {
        Seq::empty()
    } else {
        spec_p_lines(scopes, heap, args, n - 1) + spec_line(
            spec_inspect(scopes, heap, args[n - 1]),
        )
    }
}

/// Write each argument's `to_s` form to the captured output and return
/// nil.
pub fn print(interp: &mut Artichoke, args: Vec<Value>) -> (r: Result<Value, Exception>)
    requires
        old(interp).wf(),
    ensures
        final(interp).wf(),
        *final(interp) == (Artichoke { output: final(interp).output, ..*old(interp) }),
        final(interp).output@ == old(interp).output@ + spec_print_all(
            old(interp).scopes@,
            old(interp).heap@,
            args@,
            args@.len() as int,
        ),
        r matches Ok(v) && v is Nil,
{
    let n = args.len();
    let mut i: usize = 0;
    while i < n
        invariant
            i <= n,
            n == args@.len(),
            interp.wf(),
            *interp == (Artichoke { output: interp.output, ..*old(interp) }),
            interp.output@ == old(interp).output@ + spec_print_all(
                old(interp).scopes@,
                old(interp).heap@,
                args@,
                i as int,
            ),
        decreases n - i,
    {
        let display = to_s_bytes(&interp.scopes, &interp.heap, &args[i]);
        interp.print(&display);
        i = i + 1;
        proof {
            assert(interp.output@ =~= old(interp).output@ + spec_print_all(
                old(interp).scopes@,
                old(interp).heap@,
                args@,
                i as int,
            ));
        }
    }
    Ok(Value::Nil)
}

/// Write one value for `puts`: arrays are flattened recursively, every
/// leaf printed as its `to_s` form with a newline.
fn puts_foreach(interp: &mut Artichoke, value: &Value)
    requires
        old(interp).wf(),
    ensures
        final(interp).wf(),
        *final(interp) == (Artichoke { output: final(interp).output, ..*old(interp) }),
        final(interp).output@ == old(interp).output@ + spec_puts_lines(
            old(interp).scopes@,
            old(interp).heap@,
            *value,
        ),
    decreases *value, 2int, 0int,
{
    match value {
        Value::Array(items) => {
            let n = items.len();
            let mut i: usize = 0;
            while i < n
                invariant
                    i <= n,
                    n == items@.len(),
                    *value == Value::Array(*items),
                    interp.wf(),
                    *interp == (Artichoke { output: interp.output, ..*old(interp) }),
                    interp.output@ == old(interp).output@ + spec_puts_list(
                        old(interp).scopes@,
                        old(interp).heap@,
                        items@,
                        i as int,
                    ),
                decreases n - i,
            {
                proof {
                    assert(decreases_to!(*value => value->Array_0));
                    assert(decreases_to!(value->Array_0 => value->Array_0@));
                    assert(decreases_to!(value->Array_0@ => value->Array_0@[i as int]));
                    assert(value->Array_0@ == items@);
                    assert(decreases_to!(*value => items@[i as int]));
                }
                puts_foreach(interp, &items[i]);
                i = i + 1;
                proof {
                    assert(interp.output@ =~= old(interp).output@ + spec_puts_list(
                        old(interp).scopes@,
                        old(interp).heap@,
                        items@,
                        i as int,
                    ));
                }
            }
        },
        _ => {
            let display = to_s_bytes(&interp.scopes, &interp.heap, value);
            interp.puts(&display);
        },
    }
}

/// Write each argument for `puts` — arrays flattened, every leaf
/// newline-terminated, a single newline when there are no arguments —
/// and return nil.
pub fn puts(interp: &mut Artichoke, args: Vec<Value>) -> (r: Result<Value, Exception>)
    requires
        old(interp).wf(),
    ensures
        final(interp).wf(),
        *final(interp) == (Artichoke { output: final(interp).output, ..*old(interp) }),
        final(interp).output@ == old(interp).output@ + (if args@.len() == 0 {
            "\n".spec_bytes()
        } else {
            spec_puts_list(old(interp).scopes@, old(interp).heap@, args@, args@.len() as int)
        }),
        r matches Ok(v) && v is Nil,
{
    let n = args.len();
    if n == 0 {
        let newline = bstr::bytes_of("\n");
        interp.print(&newline);
        return Ok(Value::Nil);
    }
    let mut i: usize = 0;
    while i < n
        invariant
            i <= n,
            n == args@.len(),
            interp.wf(),
            *interp == (Artichoke { output: interp.output, ..*old(interp) }),
            interp.output@ == old(interp).output@ + spec_puts_list(
                old(interp).scopes@,
                old(interp).heap@,
                args@,
                i as int,
            ),
        decreases n - i,
    {
        puts_foreach(interp, &args[i]);
        i = i + 1;
        proof {
            assert(interp.output@ =~= old(interp).output@ + spec_puts_list(
                old(interp).scopes@,
                old(interp).heap@,
                args@,
                i as int,
            ));
        }
    }
    Ok(Value::Nil)
}

/// Write each argument's `inspect` form with a newline and return the
/// single argument, the array of arguments, or nil for none.
pub fn p(interp: &mut Artichoke, args: Vec<Value>) -> (r: Result<Value, Exception>)
    requires
        old(interp).wf(),
    ensures
        final(interp).wf(),
        *final(interp) == (Artichoke { output: final(interp).output, ..*old(interp) }),
        final(interp).output@ == old(interp).output@ + spec_p_lines(
            old(interp).scopes@,
            old(interp).heap@,
            args@,
            args@.len() as int,
        ),
        args@.len() == 0 ==> (r matches Ok(v) && v is Nil),
        args@.len() == 1 ==> (r matches Ok(v) && v == args@[0]),
        args@.len() > 1 ==> (r matches Ok(v) && v matches Value::Array(items) && items@ == args@),
{
    let n = args.len();
    let mut i: usize = 0;
    while i < n
        invariant
            i <= n,
            n == args@.len(),
            interp.wf(),
            *interp == (Artichoke { output: interp.output, ..*old(interp) }),
            interp.output@ == old(interp).output@ + spec_p_lines(
                old(interp).scopes@,
                old(interp).heap@,
                args@,
                i as int,
            ),
        decreases n - i,
    {
        let display = inspect_bytes(&interp.scopes, &interp.heap, &args[i]);
        interp.puts(&display);
        i = i + 1;
        proof {
            assert(interp.output@ =~= old(interp).output@ + spec_p_lines(
                old(interp).scopes@,
                old(interp).heap@,
                args@,
                i as int,
            ));
        }
    }
    if n == 0 {
        Ok(Value::Nil)
    } else if n == 1 {
        let mut args = args;
        match args.pop() {
            Option::Some(v) => Ok(v),
            Option::None => Ok(Value::Nil),
        }
    } else {
        Ok(Value::Array(args))
    }
}

/// Whether a registered load path answers a requested one: exactly, or
/// with the `.rb` suffix added to the request.
pub open spec fn feature_matches(stored: Seq<u8>, req: Seq<u8>) -> bool {
    stored == req || stored == req + ".rb".spec_bytes()
}

/// First registered feature at or after `i` answering the requested
/// path.
pub open spec fn find_feature_from(files: Seq<(Vec<u8>, Feature)>, req: Seq<u8>, i: int) -> Option<
    int,
>
    decreases files.len() - i,
{
    if i < 0 || i >= files.len() {
        Option::None
    } else if feature_matches(files[i].0@, req) {
        Option::Some(i)
    } else {
        find_feature_from(files, req, i + 1)
    }
}

/// The registered feature answering the requested path, if any.
pub open spec fn find_feature(files: Seq<(Vec<u8>, Feature)>, req: Seq<u8>) -> Option<int> {
    find_feature_from(files, req, 0)
}

/// Whether a load path was already required.
pub open spec fn spec_loaded(features: Seq<Vec<u8>>, name: Seq<u8>) -> bool {
    exists|k: int| 0 <= k < features.len() && (#[trigger] features[k])@ == name
}

/// Look the requested path up among the registered features.
fn lookup_feature(interp: &Artichoke, req: &Vec<u8>) -> (r: Option<usize>)
    ensures
        match find_feature(interp.files@, req@) {
            Option::Some(j) => 0 <= j < interp.files@.len() && j <= usize::MAX && r
                == Option::Some(j as usize),
            Option::None => r is None,
        },
{
    let n = interp.files.len();
    let mut with_rb = bstr::clone_bytes(req);
    bstr::append_str(&mut with_rb, ".rb");
    let mut i: usize = 0;
    while i < n
        invariant
            i <= n,
            n == interp.files@.len(),
            with_rb@ == req@ + ".rb".spec_bytes(),
            forall|k: int| 0 <= k < i ==> !feature_matches((#[trigger] interp.files@[k]).0@, req@),
        decreases n - i,
    {
        if bstr::bytes_eq(&interp.files[i].0, req) || bstr::bytes_eq(&interp.files[i].0, &with_rb) {
            proof {
                lemma_find_feature_skip(interp.files@, req@, i as int);
            }
            return Option::Some(i);
        }
        i = i + 1;
    }
    proof {
        lemma_find_feature_skip(interp.files@, req@, n as int);
    }
    Option::None
}

/// Skipping registered features that do not answer the request does
/// not change which one is found.
proof fn lemma_find_feature_skip(files: Seq<(Vec<u8>, Feature)>, req: Seq<u8>, j: int)
    requires
        0 <= j <= files.len(),
        forall|k: int| 0 <= k < j ==> !feature_matches((#[trigger] files[k]).0@, req),
    ensures
        find_feature(files, req) == find_feature_from(files, req, j),
    decreases j,
{
    if j > 0 {
        lemma_find_feature_skip(files, req, j - 1);
    }
}

/// Whether a load path was already required.
fn loaded_contains(interp: &Artichoke, name: &Vec<u8>) -> (r: bool)
    ensures
        r == spec_loaded(interp.loaded_features@, name@),
{
    let n = interp.loaded_features.len();
    let mut i: usize = 0;
    while i < n
        invariant
            i <= n,
            n == interp.loaded_features@.len(),
            forall|k: int| 0 <= k < i ==> (#[trigger] interp.loaded_features@[k])@ != name@,
        decreases n - i,
    {
        if bstr::bytes_eq(&interp.loaded_features[i], name) {
            return true;
        }
        i = i + 1;
    }
    false
}

/// Whether a feature's registration is certain to succeed on the
/// current state: the module feature always is; the class feature
/// needs its type already registered or the root `Object` class in
/// place to serve as default superclass.
pub open spec fn feature_succeeds(
    scopes: Seq<ScopeObj>,
    classes: Seq<(u64, crate::class::Spec)>,
    feature: Feature,
) -> bool {
    match feature {
        Feature::SecureRandom => true,
        Feature::Container => reg_find(classes, KEY_CONTAINER) is Some || find_scope(
            scopes,
            Option::None,
            "Object".spec_bytes(),
        ) is Some,
    }
}

/// Whether a feature's host type is registered.
pub open spec fn feature_registered(
    classes: Seq<(u64, crate::class::Spec)>,
    modules: Seq<(u64, crate::module::Spec)>,
    feature: Feature,
) -> bool {
    match feature {
        Feature::SecureRandom => reg_find(modules, KEY_SECURE_RANDOM) is Some,
        Feature::Container => reg_find(classes, KEY_CONTAINER) is Some,
    }
}

/// Run a feature's one-time registration.
fn run_feature(interp: &mut Artichoke, feature: Feature) -> (r: Result<(), Exception>)
    requires
        old(interp).wf(),
    ensures
        final(interp).wf(),
        *final(interp) == (Artichoke {
            scopes: final(interp).scopes,
            classes: final(interp).classes,
            modules: final(interp).modules,
            symbols: final(interp).symbols,
            ..*old(interp)
        }),
        feature_succeeds(old(interp).scopes@, old(interp).classes@, feature) ==> r is Ok,
        r is Ok ==> feature_registered(final(interp).classes@, final(interp).modules@, feature),
{
    match feature {
        Feature::SecureRandom => securerandom::SecureRandomFile::require(interp),
        Feature::Container => container::Container::require(interp),
    }
}

/// Require the feature registered under `path`.
///
/// The boundary of feature loading is idempotent: the first `require`
/// of a path runs the feature's registration once and records the
/// path; requiring the same path again changes nothing at all and
/// answers `false`. A path no feature answers fails with a
/// `LoadError`, and a path that is not a string or symbol with a
/// `TypeError`.
pub fn require(interp: &mut Artichoke, path: Value) -> (r: Result<Value, Exception>)
    requires
        old(interp).wf(),
    ensures
        final(interp).wf(),
        match path {
            Value::Str(req) | Value::Sym(req) => match find_feature(old(interp).files@, req@) {
                Option::Some(j) => {
                    let stored = old(interp).files@[j].0@;
                    if spec_loaded(old(interp).loaded_features@, stored) {
                        *final(interp) == *old(interp) && (r matches Ok(v) && v == Value::Bool(
                            false,
                        ))
                    } else {
                        &&& (r is Ok ==> (r matches Ok(v) && v == Value::Bool(true)))
                        &&& (feature_succeeds(
                            old(interp).scopes@,
                            old(interp).classes@,
                            old(interp).files@[j].1,
                        ) ==> r is Ok)
                        &&& (r is Ok ==> feature_registered(
                            final(interp).classes@,
                            final(interp).modules@,
                            old(interp).files@[j].1,
                        ))
                        &&& *final(interp) == (Artichoke {
                            scopes: final(interp).scopes,
                            classes: final(interp).classes,
                            modules: final(interp).modules,
                            symbols: final(interp).symbols,
                            loaded_features: final(interp).loaded_features,
                            ..*old(interp)
                        })
                        &&& (r is Ok ==> {
                            let lf = final(interp).loaded_features@;
                            let lf0 = old(interp).loaded_features@;
                            &&& lf.len() == lf0.len() + 1
                            &&& lf.last()@ == stored
                            &&& forall|k: int| 0 <= k < lf0.len() ==> lf[k] == lf0[k]
                        })
                    }
                },
                Option::None => *final(interp) == *old(interp) && (r matches Err(e) && e matches
                    Exception::Load(l) && l.path@ == req@),
            },
            _ => *final(interp) == *old(interp) && (r matches Err(e) && e is TypeErr),
        },
{
    let req = match &path {
        Value::Str(s) => bstr::clone_bytes(s),
        Value::Sym(s) => bstr::clone_bytes(s),
        _ => {
            return Err(
                Exception::TypeErr(
                    TypeError::from_message(
                        bstr::bytes_of("no implicit conversion into String"),
                    ),
                ),
            );
        },
    };
    let j = match lookup_feature(interp, &req) {
        Option::Some(j) => j,
        Option::None => {
            return Err(Exception::Load(LoadError::new(req)));
        },
    };
    let stored = bstr::clone_bytes(&interp.files[j].0);
    let feature = interp.files[j].1;
    proof {
        assert(stored@ == old(interp).files@[j as int].0@);
        assert(find_feature(old(interp).files@, req@) == Option::Some(j as int));
    }
    if loaded_contains(interp, &stored) {
        proof {
            assert(spec_loaded(old(interp).loaded_features@, stored@));
        }
        return Ok(Value::Bool(false));
    }
    match run_feature(interp, feature) {
        Ok(()) => {},
        Err(e) => {
            return Err(e);
        },
    }
    interp.loaded_features.push(stored);
    Ok(Value::Bool(true))
}

/// Run the feature registered under `path` unconditionally.
///
/// Unlike `require`, loading neither consults nor records the loaded
/// paths: every call runs the feature's registration again. The
/// registrations themselves are one-time, so a second load is
/// harmless.
pub fn load(interp: &mut Artichoke, path: Value) -> (r: Result<Value, Exception>)
    requires
        old(interp).wf(),
    ensures
        final(interp).wf(),
        match path {
            Value::Str(req) | Value::Sym(req) => match find_feature(old(interp).files@, req@) {
                Option::Some(j) => {
                    &&& (r is Ok ==> (r matches Ok(v) && v == Value::Bool(true)))
                    &&& (feature_succeeds(
                        old(interp).scopes@,
                        old(interp).classes@,
                        old(interp).files@[j].1,
                    ) ==> r is Ok)
                    &&& (r is Ok ==> feature_registered(
                        final(interp).classes@,
                        final(interp).modules@,
                        old(interp).files@[j].1,
                    ))
                    &&& *final(interp) == (Artichoke {
                        scopes: final(interp).scopes,
                        classes: final(interp).classes,
                        modules: final(interp).modules,
                        symbols: final(interp).symbols,
                        ..*old(interp)
                    })
                },
                Option::None => *final(interp) == *old(interp) && (r matches Err(e) && e matches
                    Exception::Load(l) && l.path@ == req@),
            },
            _ => *final(interp) == *old(interp) && (r matches Err(e) && e is TypeErr),
        },
{
    let req = match &path {
        Value::Str(s) => bstr::clone_bytes(s),
        Value::Sym(s) => bstr::clone_bytes(s),
        _ => {
            return Err(
                Exception::TypeErr(
                    TypeError::from_message(
                        bstr::bytes_of("no implicit conversion into String"),
                    ),
                ),
            );
        },
    };
    let j = match lookup_feature(interp, &req) {
        Option::Some(j) => j,
        Option::None => {
            return Err(Exception::Load(LoadError::new(req)));
        },
    };
    let feature = interp.files[j].1;
    match run_feature(interp, feature) {
        Ok(()) => Ok(Value::Bool(true)),
        Err(e) => Err(e),
    }
}

/// The numeric value of one digit byte: decimal digits, then lowercase
/// and uppercase letters for bases above ten; anything else is no
/// digit.
pub open spec fn spec_digit_val(b: u8) -> int {
    if 48 <= b <= 57 {
        b - 48
    } else if 97 <= b <= 122 {
        b - 87
    } else if 65 <= b <= 90 {
        b - 55
    } else {
        -1
    }
}

/// The bytes with leading spaces removed.
pub open spec fn spec_trim_front(s: Seq<u8>) -> Seq<u8>
    decreases s.len(),
{
    if s.len() > 0 && s[0] == 32 {
        spec_trim_front(s.drop_first())
    } else {
        s
    }
}

/// The bytes with trailing spaces removed.
pub open spec fn spec_trim_back(s: Seq<u8>) -> Seq<u8>
    decreases s.len(),
{
    if s.len() > 0 && s.last() == 32 {
        spec_trim_back(s.drop_last())
    } else {
        s
    }
}

/// The bytes with surrounding spaces removed.
pub open spec fn spec_trim(s: Seq<u8>) -> Seq<u8> {
    spec_trim_back(spec_trim_front(s))
}

/// Whether the bytes spell digits of the given base: non-empty, every
/// byte a digit or a separating underscore, no underscore leading,
/// trailing, or doubled.
pub open spec fn spec_digits_ok(s: Seq<u8>, base: int) -> bool {
    &&& s.len() > 0
    &&& s[0] != 95
    &&& s[s.len() - 1] != 95
    &&& forall|i: int| 0 <= i < s.len() ==> ((#[trigger] s[i]) == 95 ==> i > 0 && s[i - 1] != 95)
    &&& forall|i: int|
        0 <= i < s.len() ==> ((#[trigger] s[i]) != 95 ==> 0 <= spec_digit_val(s[i]) < base)
}

/// The value the digit bytes spell in the given base, underscores
/// skipped.
pub open spec fn spec_digits_value(s: Seq<u8>, base: int) -> int
    decreases s.len(),
{
    if s.len() == 0 {
        0
    } else if s.last() == 95 {
        spec_digits_value(s.drop_last(), base)
    } else {
        spec_digits_value(s.drop_last(), base) * base + spec_digit_val(s.last())
    }
}

/// What an integer literal spells in the given base: surrounding
/// spaces ignored, an optional sign, then separated digits — or
/// nothing, when the bytes are not such a literal.
pub open spec fn spec_parse_int(s: Seq<u8>, base: int) -> Option<int> {
    let t = spec_trim(s);
    if t.len() == 0 {
        Option::None
    } else {
        let body = if t[0] == 43 || t[0] == 45 {
            t.drop_first()
        } else {
            t
        };
        if spec_digits_ok(body, base) {
            if t[0] == 45 {
                Option::Some(-spec_digits_value(body, base))
            } else {
                Option::Some(spec_digits_value(body, base))
            }
        } else {
            Option::None
        }
    }
}

/// A run of leading spaces trims to the rest of the bytes.
proof fn lemma_trim_front_idx(s: Seq<u8>, a: int)
    requires
        0 <= a <= s.len(),
        forall|k: int| 0 <= k < a ==> s[k] == 32,
        a < s.len() ==> s[a] != 32,
    ensures
        spec_trim_front(s) == s.subrange(a, s.len() as int),
    decreases a,
{
    if a == 0 {
        assert(s.subrange(0, s.len() as int) =~= s);
    } else {
        assert(s[0] == 32);
        let rest = s.drop_first();
        assert(rest =~= s.subrange(1, s.len() as int));
        lemma_trim_front_idx(rest, a - 1);
        assert(rest.subrange(a - 1, rest.len() as int) =~= s.subrange(a, s.len() as int));
    }
}

/// A run of trailing spaces trims to the front of the bytes.
proof fn lemma_trim_back_idx(s: Seq<u8>, b: int)
    requires
        0 <= b <= s.len(),
        forall|k: int| b <= k < s.len() ==> s[k] == 32,
        b > 0 ==> s[b - 1] != 32,
    ensures
        spec_trim_back(s) == s.subrange(0, b),
    decreases s.len(),
{
    if b == s.len() {
        if s.len() > 0 && s.last() == 32 {
            assert(false);
        }
        assert(s.subrange(0, b) =~= s);
    } else {
        assert(s.last() == 32);
        let rest = s.drop_last();
        lemma_trim_back_idx(rest, b);
        assert(rest.subrange(0, b) =~= s.subrange(0, b));
    }
}

/// Parse an integer literal in the given base.
///
/// Succeeds exactly when the bytes spell a literal whose value fits:
/// the value is returned, and everything else — a malformed literal or
/// a value out of range — is an argument error.
#[verifier::loop_isolation(false)]
#[verifier::rlimit(60)]
pub fn parse_integer(bytes: &Vec<u8>, base: i64) -> (r: Result<i64, Exception>)
    requires
        2 <= base <= 36,
    ensures
        match spec_parse_int(bytes@, base as int) {
            Option::Some(v) => if -i64::MAX <= v <= i64::MAX {
                r matches Ok(o) && o == v
            } else {
                r matches Err(e) && e is BadArgument
            },
            Option::None => r matches Err(e) && e is BadArgument,
        },
{
    let len = bytes.len();
    let mut a: usize = 0;
    while a < len && bytes[a] == 32
        invariant
            a <= len,
            len == bytes@.len(),
            forall|k: int| 0 <= k < a ==> bytes@[k] == 32,
        decreases len - a,
    {
        a = a + 1;
    }
    let mut b: usize = len;
    while b > a && bytes[b - 1] == 32
        invariant
            a <= b <= len,
            len == bytes@.len(),
            forall|k: int| b <= k < len ==> bytes@[k] == 32,
        decreases b,
    {
        b = b - 1;
    }
    proof {
        lemma_trim_front_idx(bytes@, a as int);
        if b == a {
            lemma_trim_back_idx(
                bytes@.subrange(a as int, len as int),
                0,
            );
        } else {
            lemma_trim_back_idx(
                bytes@.subrange(a as int, len as int),
                b - a,
            );
        }
        assert(spec_trim(bytes@) =~= bytes@.subrange(a as int, b as int));
    }
    if a == b {
        return Err(invalid_integer());
    }
    let first = bytes[a];
    let negative = first == 45;
    let body_start: usize = if first == 43 || first == 45 {
        a + 1
    } else {
        a
    };
    let ghost t = bytes@.subrange(a as int, b as int);
    let ghost body = bytes@.subrange(body_start as int, b as int);
    proof {
        if first == 43 || first == 45 {
            assert(t.drop_first() =~= body);
        } else {
            assert(t =~= body);
        }
    }
    if body_start == b {
        proof {
            assert(!spec_digits_ok(body, base as int));
        }
        return Err(invalid_integer());
    }
    let mut acc: i128 = 0;
    let mut over = false;
    let mut prev_underscore = false;
    let mut i: usize = body_start;
    while i < b
        invariant
            body_start <= i <= b,
            b <= bytes@.len(),
            2 <= base <= 36,
            body == bytes@.subrange(body_start as int, b as int),
            body_start < b,
            forall|k: int|
                0 <= k < i - body_start ==> ((#[trigger] body[k]) == 95 ==> k > 0 && body[k - 1]
                    != 95),
            forall|k: int|
                0 <= k < i - body_start ==> ((#[trigger] body[k]) != 95 ==> 0 <= spec_digit_val(
                    body[k],
                ) < base),
            i > body_start ==> body[0] != 95,
            prev_underscore == (i > body_start && body[i - body_start - 1] == 95),
            !over ==> acc == spec_digits_value(
                body.subrange(0, i - body_start),
                base as int,
            ) && 0 <= acc <= i64::MAX,
            over ==> spec_digits_value(body.subrange(0, i - body_start), base as int)
                > i64::MAX,
        decreases b - i,
    {
        let byte = bytes[i];
        proof {
            assert(body[i - body_start] == bytes@[i as int]);
            assert(body.subrange(0, i - body_start + 1).drop_last() =~= body.subrange(
                0,
                i - body_start,
            ));
            assert(body.subrange(0, i - body_start + 1).last() == body[i - body_start]);
        }
        if byte == 95 {
            if i == body_start || prev_underscore {
                proof {
                    assert(!spec_digits_ok(body, base as int)) by {
                        if i == body_start {
                            assert(body[0] == 95);
                        } else {
                            assert(body[i - body_start] == 95 && body[i - body_start - 1] == 95);
                        }
                    }
                }
                return Err(invalid_integer());
            }
            prev_underscore = true;
        } else {
            let d: i64 = if 48 <= byte && byte <= 57 {
                (byte - 48) as i64
            } else if 97 <= byte && byte <= 122 {
                (byte - 87) as i64
            } else if 65 <= byte && byte <= 90 {
                (byte - 55) as i64
            } else {
                -1
            };
            if d < 0 || d >= base {
                proof {
                    assert(!spec_digits_ok(body, base as int)) by {
                        assert(body[i - body_start] != 95);
                        assert(!(0 <= spec_digit_val(body[i - body_start]) < base));
                    }
                }
                return Err(invalid_integer());
            }
            if !over {
                proof {
                    assert(0 <= acc * (base as int) <= i64::MAX * 36) by (nonlinear_arith)
                        requires
                            0 <= acc <= i64::MAX,
                            2 <= base <= 36,
                    ;
                }
                let next = acc * (base as i128) + (d as i128);
                if next > (i64::MAX as i128) {
                    over = true;
                    proof {
                        assert(spec_digits_value(
                            body.subrange(0, i - body_start + 1),
                            base as int,
                        ) > i64::MAX);
                    }
                } else {
                    acc = next;
                }
            } else {
                proof {
                    let prefix = body.subrange(0, i - body_start);
                    let ext = body.subrange(0, i - body_start + 1);
                    assert(spec_digits_value(ext, base as int) == spec_digits_value(
                        prefix,
                        base as int,
                    ) * base + spec_digit_val(body[i - body_start]));
                    assert(spec_digits_value(prefix, base as int) * base >= spec_digits_value(
                        prefix,
                        base as int,
                    ) * 2) by (nonlinear_arith)
                        requires
                            spec_digits_value(prefix, base as int) >= 0,
                            base >= 2,
                    ;
                    assert(spec_digits_value(prefix, base as int) >= 0) by {
                        lemma_digits_value_nonneg(prefix, base as int);
                    }
                    assert(spec_digits_value(ext, base as int) > i64::MAX);
                }
            }
            prev_underscore = false;
        }
        i = i + 1;
    }
    if prev_underscore {
        proof {
            assert(body[b - body_start - 1] == 95);
            assert(!spec_digits_ok(body, base as int));
        }
        return Err(invalid_integer());
    }
    proof {
        assert(body.subrange(0, b - body_start) =~= body);
        assert(spec_digits_ok(body, base as int));
    }
    if over {
        return Err(invalid_integer());
    }
    let magnitude = acc as i64;
    if negative {
        Ok(-magnitude)
    } else {
        Ok(magnitude)
    }
}

/// A digit string's value is never negative.
proof fn lemma_digits_value_nonneg(s: Seq<u8>, base: int)
    requires
        base >= 2,
        forall|i: int| 0 <= i < s.len() ==> ((#[trigger] s[i]) != 95 ==> 0 <= spec_digit_val(s[i])),
    ensures
        spec_digits_value(s, base) >= 0,
    decreases s.len(),
{
    if s.len() > 0 {
        lemma_digits_value_nonneg(s.drop_last(), base);
        if s.last() != 95 {
            assert(spec_digits_value(s.drop_last(), base) * base >= 0) by (nonlinear_arith)
                requires
                    spec_digits_value(s.drop_last(), base) >= 0,
                    base >= 2,
            ;
        }
    }
}

/// The argument error reported for a malformed integer literal.
fn invalid_integer() -> (r: Exception)
    ensures
        r is BadArgument,
{
    Exception::BadArgument(
        BadArgumentError::from_message(bstr::bytes_of("invalid value for Integer()")),
    )
}

/// Convert a value to an integer, as the `Integer` kernel entry point.
///
/// An integer converts to itself — with a base it is refused. A string
/// or symbol is parsed as an integer literal in the given base (ten
/// when absent): surrounding spaces, an optional sign and underscore
/// separators are accepted, and a malformed literal or out-of-range
/// value is an argument error. A base outside two through thirty-six
/// is refused, and any other value is a type error.
pub fn integer(interp: &mut Artichoke, arg: Value, base: Option<Value>) -> (r: Result<
    Value,
    Exception,
>)
    requires
        old(interp).wf(),
    ensures
        *final(interp) == *old(interp),
        ({
            let radix = match base {
                Option::None => Option::Some(10int),
                Option::Some(bv) => match bv {
                    Value::Nil => Option::Some(10int),
                    Value::Fixnum(b) => if 2 <= b <= 36 {
                        Option::Some(b as int)
                    } else {
                        Option::None
                    },
                    _ => Option::None,
                },
            };
            match radix {
                Option::None => r is Err,
                Option::Some(rx) => match arg {
                    Value::Fixnum(n) => if base is None || (base matches Some(bv) && bv is Nil) {
                        r matches Ok(v) && v == Value::Fixnum(n)
                    } else {
                        r matches Err(e) && e is BadArgument
                    },
                    Value::Str(s) => (match spec_parse_int(s@, rx) {
                        Option::Some(v) => if -i64::MAX <= v <= i64::MAX {
                            r matches Ok(o) && o == Value::Fixnum(v as i64)
                        } else {
                            r matches Err(e) && e is BadArgument
                        },
                        Option::None => r matches Err(e) && e is BadArgument,
                    }),
                    Value::Sym(s) => (match spec_parse_int(s@, rx) {
                        Option::Some(v) => if -i64::MAX <= v <= i64::MAX {
                            r matches Ok(o) && o == Value::Fixnum(v as i64)
                        } else {
                            r matches Err(e) && e is BadArgument
                        },
                        Option::None => r matches Err(e) && e is BadArgument,
                    }),
                    _ => r matches Err(e) && e is TypeErr,
                },
            }
        }),
{
    let radix: i64 = match &base {
        Option::None => 10,
        Option::Some(bv) => match bv {
            Value::Nil => 10,
            Value::Fixnum(b) => {
                if 2 <= *b && *b <= 36 {
                    *b
                } else {
                    return Err(
                        Exception::BadArgument(
                            BadArgumentError::from_message(bstr::bytes_of("invalid radix")),
                        ),
                    );
                }
            },
            _ => {
                return Err(
                    Exception::TypeErr(
                        TypeError::from_message(
                            bstr::bytes_of("no implicit conversion into Integer"),
                        ),
                    ),
                );
            },
        },
    };
    match &arg {
        Value::Fixnum(n) => {
            let base_given = match &base {
                Option::None => false,
                Option::Some(Value::Nil) => false,
                Option::Some(_) => true,
            };
            if base_given {
                Err(
                    Exception::BadArgument(
                        BadArgumentError::from_message(
                            bstr::bytes_of("base specified for non string value"),
                        ),
                    ),
                )
            } else {
                Ok(Value::Fixnum(*n))
            }
        },
        Value::Str(s) => {
            match parse_integer(s, radix) {
                Ok(v) => Ok(Value::Fixnum(v)),
                Err(e) => Err(e),
            }
        },
        Value::Sym(s) => {
            match parse_integer(s, radix) {
                Ok(v) => Ok(Value::Fixnum(v)),
                Err(e) => Err(e),
            }
        },
        _ => Err(
            Exception::TypeErr(
                TypeError::from_message(bstr::bytes_of("can't convert into Integer")),
            ),
        ),
    }
}

/// Require the feature registered under `path`, resolved relative to
/// the requiring source.
///
/// This interpreter has no source files on disk, so relative
/// resolution is the identity and the behaviour is that of `require`.
pub fn require_relative(interp: &mut Artichoke, path: Value) -> (r: Result<Value, Exception>)
    requires
        old(interp).wf(),
    ensures
        final(interp).wf(),
        match path {
            Value::Str(req) | Value::Sym(req) => match find_feature(old(interp).files@, req@) {
                Option::Some(j) => {
                    let stored = old(interp).files@[j].0@;
                    if spec_loaded(old(interp).loaded_features@, stored) {
                        *final(interp) == *old(interp) && (r matches Ok(v) && v == Value::Bool(
                            false,
                        ))
                    } else {
                        &&& (r is Ok ==> (r matches Ok(v) && v == Value::Bool(true)))
                        &&& (feature_succeeds(
                            old(interp).scopes@,
                            old(interp).classes@,
                            old(interp).files@[j].1,
                        ) ==> r is Ok)
                        &&& (r is Ok ==> feature_registered(
                            final(interp).classes@,
                            final(interp).modules@,
                            old(interp).files@[j].1,
                        ))
                        &&& *final(interp) == (Artichoke {
                            scopes: final(interp).scopes,
                            classes: final(interp).classes,
                            modules: final(interp).modules,
                            symbols: final(interp).symbols,
                            loaded_features: final(interp).loaded_features,
                            ..*old(interp)
                        })
                        &&& (r is Ok ==> {
                            let lf = final(interp).loaded_features@;
                            let lf0 = old(interp).loaded_features@;
                            &&& lf.len() == lf0.len() + 1
                            &&& lf.last()@ == stored
                            &&& forall|k: int| 0 <= k < lf0.len() ==> lf[k] == lf0[k]
                        })
                    }
                },
                Option::None => *final(interp) == *old(interp) && (r matches Err(e) && e matches
                    Exception::Load(l) && l.path@ == req@),
            },
            _ => *final(interp) == *old(interp) && (r matches Err(e) && e is TypeErr),
        },
{
    require(interp, path)
}

} // verus!
