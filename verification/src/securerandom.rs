//! The `SecureRandom` module: random byte strings, hex strings,
//! alphanumeric strings, integers and identifiers drawn from the
//! interpreter's generator.
//!
//! Every draw is a function of the generator's state, so the contracts
//! pin each result down exactly.

use vstd::prelude::*;
use vstd::string::StringSliceAdditionalSpecFns;
use vstd::utf8::is_ascii_chars;

use crate::bstr;
use crate::def::Method;
use crate::exception::{BadArgumentError, Exception, NotImplementedError};
use crate::def::name_has_no_nul;
use crate::interp::{
    find_scope, lemma_literal_bytes, lemma_reg_find_push, method_bound, reg_find, Artichoke,
    Feature, MethodBinding, KEY_SECURE_RANDOM,
};
use crate::method;
use crate::module;
use crate::prng::{spec_byte_stream, spec_next, spec_rand_int, spec_state_after};
use crate::value::Value;

verus! {

/// Number of random bytes or characters drawn when no length is asked
/// for.
pub const DEFAULT_REQUEST: usize = 16;

/// Byte facts about the `SecureRandom` constant and module-function
/// names: each name's length, leading byte and freedom from NUL bytes.
/// Lengths and leading bytes together tell every pair apart.
pub proof fn lemma_securerandom_name_bytes()
    ensures
        "SecureRandom".spec_bytes().len() == 12,
        "SecureRandom".spec_bytes()[0] == 83u8,
        name_has_no_nul("SecureRandom".spec_bytes()),
        "alphanumeric".spec_bytes().len() == 12,
        "alphanumeric".spec_bytes()[0] == 97u8,
        name_has_no_nul("alphanumeric".spec_bytes()),
        "base64".spec_bytes().len() == 6,
        "base64".spec_bytes()[0] == 98u8,
        name_has_no_nul("base64".spec_bytes()),
        "hex".spec_bytes().len() == 3,
        "hex".spec_bytes()[0] == 104u8,
        name_has_no_nul("hex".spec_bytes()),
        "random_bytes".spec_bytes().len() == 12,
        "random_bytes".spec_bytes()[0] == 114u8,
        name_has_no_nul("random_bytes".spec_bytes()),
        "random_number".spec_bytes().len() == 13,
        "random_number".spec_bytes()[0] == 114u8,
        name_has_no_nul("random_number".spec_bytes()),
        "uuid".spec_bytes().len() == 4,
        "uuid".spec_bytes()[0] == 117u8,
        name_has_no_nul("uuid".spec_bytes()),
{
    reveal_strlit("SecureRandom");
    assert(is_ascii_chars("SecureRandom"@));
    lemma_literal_bytes("SecureRandom");
    reveal_strlit("alphanumeric");
    assert(is_ascii_chars("alphanumeric"@));
    lemma_literal_bytes("alphanumeric");
    reveal_strlit("base64");
    assert(is_ascii_chars("base64"@));
    lemma_literal_bytes("base64");
    reveal_strlit("hex");
    assert(is_ascii_chars("hex"@));
    lemma_literal_bytes("hex");
    reveal_strlit("random_bytes");
    assert(is_ascii_chars("random_bytes"@));
    lemma_literal_bytes("random_bytes");
    reveal_strlit("random_number");
    assert(is_ascii_chars("random_number"@));
    lemma_literal_bytes("random_number");
    reveal_strlit("uuid");
    assert(is_ascii_chars("uuid"@));
    lemma_literal_bytes("uuid");
}

/// Whether a method table carries the whole `SecureRandom` module
/// function set: each of the six functions bound on the module object
/// with its declared arity.
pub open spec fn securerandom_methods_bound(methods: Seq<MethodBinding>) -> bool {
    &&& method_bound(methods, method::Type::Class, "alphanumeric".spec_bytes(), Method::SecureRandomAlphanumeric, 0, 1)
    &&& method_bound(methods, method::Type::Class, "base64".spec_bytes(), Method::SecureRandomBase64, 0, 1)
    &&& method_bound(methods, method::Type::Class, "hex".spec_bytes(), Method::SecureRandomHex, 0, 1)
    &&& method_bound(methods, method::Type::Class, "random_bytes".spec_bytes(), Method::SecureRandomRandomBytes, 0, 1)
    &&& method_bound(methods, method::Type::Class, "random_number".spec_bytes(), Method::SecureRandomRandomNumber, 0, 1)
    &&& method_bound(methods, method::Type::Class, "uuid".spec_bytes(), Method::SecureRandomUuid, 0, 0)
}

/// Whether one accumulated method entry is a binding on the module
/// object with the given name, native entry point and arity.
pub open spec fn module_entry_is(
    entry: method::Spec,
    name: Seq<u8>,
    native: Method,
    required: u32,
    optional: u32,
) -> bool {
    entry.kind == method::Type::Class && entry.name@ == name && entry.method == native
        && entry.args == (method::Arity { required, optional })
}

/// Whether a builder's accumulated method list is exactly the
/// `SecureRandom` function set, in binding order.
pub open spec fn securerandom_method_list(specs: Seq<method::Spec>) -> bool {
    &&& specs.len() == 6
    &&& module_entry_is(specs[0], "alphanumeric".spec_bytes(), Method::SecureRandomAlphanumeric, 0, 1)
    &&& module_entry_is(specs[1], "base64".spec_bytes(), Method::SecureRandomBase64, 0, 1)
    &&& module_entry_is(specs[2], "hex".spec_bytes(), Method::SecureRandomHex, 0, 1)
    &&& module_entry_is(specs[3], "random_bytes".spec_bytes(), Method::SecureRandomRandomBytes, 0, 1)
    &&& module_entry_is(specs[4], "random_number".spec_bytes(), Method::SecureRandomRandomNumber, 0, 1)
    &&& module_entry_is(specs[5], "uuid".spec_bytes(), Method::SecureRandomUuid, 0, 0)
}

/// Binding the `SecureRandom` function list into a table leaves every
/// one of the six functions bound: the names are pairwise distinct, so
/// no binding shadows another.
proof fn lemma_securerandom_table(specs: Seq<method::Spec>, table: Seq<MethodBinding>)
    requires
        securerandom_method_list(specs),
        crate::class::methods_all_bound(specs, table),
    ensures
        securerandom_methods_bound(table),
{
    lemma_securerandom_name_bytes();
    assert forall|i: int, k: int| 0 <= i < k < 6 implies !crate::class::same_slot(
        #[trigger] specs[k],
        #[trigger] specs[i],
    ) by {}
}

/// The `SecureRandom` feature.
pub struct SecureRandomFile;

impl SecureRandomFile {
    /// Define the `SecureRandom` module with its module functions and
    /// register it under its host type key.
    ///
    /// Requiring the feature twice defines the module once: an existing
    /// registration short-circuits with nothing changed. Success is
    /// always owed: on the fresh path the module is defined at the
    /// root (created, or reused if a module of that name already
    /// resolves), all six module functions are bound, and the defined
    /// descriptor is registered under the key.
    pub fn require(interp: &mut Artichoke) -> (r: Result<(), Exception>)
        requires
            old(interp).wf(),
        ensures
            final(interp).wf(),
            *final(interp) == (Artichoke {
                scopes: final(interp).scopes,
                modules: final(interp).modules,
                symbols: final(interp).symbols,
                ..*old(interp)
            }),
            r is Ok,
            reg_find(old(interp).modules@, KEY_SECURE_RANDOM) is Some ==> *final(interp) == *old(
                interp,
            ),
            reg_find(final(interp).modules@, KEY_SECURE_RANDOM) is Some,
            reg_find(old(interp).modules@, KEY_SECURE_RANDOM) is None ==> {
                &&& final(interp).modules@.len() == old(interp).modules@.len() + 1
                &&& forall|i: int|
                    0 <= i < old(interp).modules@.len()
                        ==> final(interp).modules@[i] == old(interp).modules@[i]
                &&& final(interp).modules@.last().0 == KEY_SECURE_RANDOM
                &&& final(interp).modules@.last().1.spec_path() == seq![
                    "SecureRandom".spec_bytes(),
                ]
                &&& (match reg_find(final(interp).modules@, KEY_SECURE_RANDOM) {
                    Option::Some(j) => final(interp).modules@[j].1.spec_path() == seq![
                        "SecureRandom".spec_bytes(),
                    ],
                    Option::None => false,
                })
                &&& (match find_scope(
                    old(interp).scopes@,
                    Option::None,
                    "SecureRandom".spec_bytes(),
                ) {
                    Option::None => {
                        &&& final(interp).scopes@.len() == old(interp).scopes@.len() + 1
                        &&& forall|i: int|
                            0 <= i < old(interp).scopes@.len()
                                ==> final(interp).scopes@[i] == old(interp).scopes@[i]
                        &&& final(interp).scopes@.last().kind == crate::interp::ScopeKind::Module
                        &&& final(interp).scopes@.last().name@ == "SecureRandom".spec_bytes()
                        &&& final(interp).scopes@.last().parent is None
                        &&& final(interp).scopes@.last().superclass is None
                        &&& !final(interp).scopes@.last().holds_data
                        &&& securerandom_methods_bound(final(interp).scopes@.last().methods@)
                    },
                    Option::Some(sid) => {
                        &&& final(interp).scopes@.len() == old(interp).scopes@.len()
                        &&& forall|i: int|
                            0 <= i < old(interp).scopes@.len() && i != sid
                                ==> final(interp).scopes@[i] == old(interp).scopes@[i]
                        &&& final(interp).scopes@[sid as int].name@
                            == old(interp).scopes@[sid as int].name@
                        &&& final(interp).scopes@[sid as int].parent
                            == old(interp).scopes@[sid as int].parent
                        &&& securerandom_methods_bound(
                            final(interp).scopes@[sid as int].methods@,
                        )
                    },
                })
            },
    {
        proof {
            lemma_securerandom_name_bytes();
        }
        if interp.is_module_defined(KEY_SECURE_RANDOM) {
            return Ok(());
        }
        let spec = match module::Spec::new(interp, bstr::bytes_of("SecureRandom"), Option::None) {
            Ok(spec) => spec,
            Err(e) => {
                return Err(e);
            },
        };
        let builder = module::Builder::for_spec(&spec);
        let builder = match add_securerandom_methods(builder) {
            Ok(b) => b,
            Err(e) => {
                return Err(Exception::ConstantName(e));
            },
        };
        let ghost builder_methods = builder.methods@;
        let ghost pre_scopes = interp.scopes@;
        match builder.define(interp) {
            Ok(()) => {},
            Err(e) => {
                return Err(Exception::NotDefined(e));
            },
        }
        proof {
            assert(spec.spec_path() =~= seq!["SecureRandom".spec_bytes()]);
            match crate::interp::resolve_path(pre_scopes, spec.spec_path()) {
                Option::Some(sid) => {
                    lemma_securerandom_table(
                        builder_methods,
                        interp.scopes@[sid as int].methods@,
                    );
                },
                Option::None => {
                    lemma_securerandom_table(builder_methods, interp.scopes@.last().methods@);
                },
            }
        }
        let ghost pre = interp.modules@;
        match interp.def_module(KEY_SECURE_RANDOM, spec) {
            Ok(()) => {
                proof {
                    lemma_reg_find_push(
                        pre,
                        (KEY_SECURE_RANDOM, interp.modules@.last().1),
                        KEY_SECURE_RANDOM,
                    );
                }
                Ok(())
            },
            Err(e) => Err(e),
        }
    }
}

/// Accumulate the whole `SecureRandom` function set onto a fresh
/// builder.
fn add_securerandom_methods<'a>(builder: module::Builder<'a>) -> (r: Result<
    module::Builder<'a>,
    crate::def::ConstantNameError,
>)
    requires
        builder.wf(),
        builder.methods@.len() == 0,
    ensures
        r matches Ok(b) && b.wf() && b.spec == builder.spec && securerandom_method_list(
            b.methods@,
        ),
{
    proof {
        lemma_securerandom_name_bytes();
    }
    let builder = match builder.add_self_method(
        bstr::bytes_of("alphanumeric"),
        Method::SecureRandomAlphanumeric,
        method::args_opt(1),
    ) {
        Ok(b) => b,
        Err(e) => {
            return Err(e);
        },
    };
    let builder = match builder.add_self_method(
        bstr::bytes_of("base64"),
        Method::SecureRandomBase64,
        method::args_opt(1),
    ) {
        Ok(b) => b,
        Err(e) => {
            return Err(e);
        },
    };
    let builder = match builder.add_self_method(
        bstr::bytes_of("hex"),
        Method::SecureRandomHex,
        method::args_opt(1),
    ) {
        Ok(b) => b,
        Err(e) => {
            return Err(e);
        },
    };
    let builder = match builder.add_self_method(
        bstr::bytes_of("random_bytes"),
        Method::SecureRandomRandomBytes,
        method::args_opt(1),
    ) {
        Ok(b) => b,
        Err(e) => {
            return Err(e);
        },
    };
    let builder = match builder.add_self_method(
        bstr::bytes_of("random_number"),
        Method::SecureRandomRandomNumber,
        method::args_opt(1),
    ) {
        Ok(b) => b,
        Err(e) => {
            return Err(e);
        },
    };
    let builder = match builder.add_self_method(
        bstr::bytes_of("uuid"),
        Method::SecureRandomUuid,
        method::args_none(),
    ) {
        Ok(b) => b,
        Err(e) => {
            return Err(e);
        },
    };
    Ok(builder)
}

/// Register the `SecureRandom` feature under its load path.
pub fn init(interp: &mut Artichoke) -> (r: Result<(), Exception>)
    requires
        old(interp).wf(),
    ensures
        final(interp).wf(),
        *final(interp) == (Artichoke { files: final(interp).files, ..*old(interp) }),
        final(interp).files@.len() == old(interp).files@.len() + 1,
        forall|i: int|
            0 <= i < old(interp).files@.len() ==> final(interp).files@[i] == old(interp).files@[i],
        final(interp).files@.last().0@ == "securerandom.rb".spec_bytes(),
        final(interp).files@.last().1 == Feature::SecureRandom,
        r is Ok,
{
    interp.files.push((bstr::bytes_of("securerandom.rb"), Feature::SecureRandom));
    Ok(())
}

/// Resolve an optional length argument: absent or nil asks for the
/// default, an integer asks for itself, a negative integer is refused,
/// and anything else is a conversion error.
fn resolve_length(interp: &mut Artichoke, len: &Option<Value>) -> (r: Result<usize, Exception>)
    requires
        old(interp).wf(),
    ensures
        *final(interp) == *old(interp),
        match *len {
            Option::None => r matches Ok(n) && n == DEFAULT_REQUEST,
            Option::Some(v) => match v {
                Value::Nil => r matches Ok(n) && n == DEFAULT_REQUEST,
                Value::Fixnum(m) => if 0 <= m <= usize::MAX {
                    r matches Ok(n) && n == m
                } else {
                    r matches Err(e) && e is BadArgument
                },
                _ => r is Err,
            },
        },
{
    match len {
        Option::None => Ok(DEFAULT_REQUEST),
        Option::Some(v) => match v {
            Value::Nil => Ok(DEFAULT_REQUEST),
            Value::Fixnum(m) => {
                if *m >= 0 && (*m as u64) <= (usize::MAX as u64) {
                    Ok(*m as usize)
                } else {
                    Err(
                        Exception::BadArgument(
                            BadArgumentError::from_message(bstr::bytes_of("negative string size")),
                        ),
                    )
                }
            },
            _ => {
                match v.implicitly_convert_to_int(interp) {
                    Ok(_) => Err(
                        Exception::TypeErr(
                            crate::exception::TypeError::from_message(
                                bstr::bytes_of("length must be an integer"),
                            ),
                        ),
                    ),
                    Err(e) => Err(Exception::TypeErr(e)),
                }
            },
        },
    }
}

/// Draw `len` random bytes (or the default) as a string value.
pub fn random_bytes(interp: &mut Artichoke, len: Option<Value>) -> (r: Result<Value, Exception>)
    requires
        old(interp).wf(),
    ensures
        final(interp).wf(),
        *final(interp) == (Artichoke { prng: final(interp).prng, ..*old(interp) }),
        match len {
            Option::None => (r matches Ok(v) && v matches Value::Str(s) && s@ == spec_byte_stream(
                old(interp).prng.state,
                DEFAULT_REQUEST as nat,
            )),
            Option::Some(a) => match a {
                Value::Nil => (r matches Ok(v) && v matches Value::Str(s) && s@
                    == spec_byte_stream(old(interp).prng.state, DEFAULT_REQUEST as nat)),
                Value::Fixnum(m) => if 0 <= m <= usize::MAX {
                    (r matches Ok(v) && v matches Value::Str(s) && s@ == spec_byte_stream(
                        old(interp).prng.state,
                        m as nat,
                    ))
                } else {
                    r is Err && *final(interp) == *old(interp)
                },
                _ => r is Err && *final(interp) == *old(interp),
            },
        },
{
    let n = match resolve_length(interp, &len) {
        Ok(n) => n,
        Err(e) => {
            return Err(e);
        },
    };
    let mut buf: Vec<u8> = Vec::new();
    let mut i: usize = 0;
    while i < n
        invariant
            i <= n,
            buf@.len() == i,
        decreases n - i,
    {
        buf.push(0);
        i = i + 1;
    }
    interp.prng.bytes(&mut buf);
    Ok(Value::Str(buf))
}

/// Lowercase hex digit for a value below sixteen.
pub open spec fn spec_hex_digit(d: u8) -> u8 {
    if d < 10 {
        (48 + d) as u8
    } else {
        (87 + d) as u8
    }
}

/// Lowercase hex rendering of a byte string, two digits per byte.
pub open spec fn spec_hex(s: Seq<u8>) -> Seq<u8>
    decreases s.len(),
{
    if s.len() == 0 {
        Seq::empty()
    } else {
        spec_hex(s.drop_last()) + seq![
            spec_hex_digit(s.last() / 16),
            spec_hex_digit(s.last() % 16),
        ]
    }
}

/// Render a byte string as lowercase hex, two digits per byte.
pub fn hex_encode(bytes: &Vec<u8>) -> (r: Vec<u8>)
    ensures
        r@ == spec_hex(bytes@),
{
    let mut out: Vec<u8> = Vec::new();
    let n = bytes.len();
    let mut i: usize = 0;
    while i < n
        invariant
            i <= n,
            n == bytes@.len(),
            out@ == spec_hex(bytes@.subrange(0, i as int)),
        decreases n - i,
    {
        let b = bytes[i];
        let hi = b / 16;
        let lo = b % 16;
        out.push(
            if hi < 10 {
                48 + hi
            } else {
                87 + hi
            },
        );
        out.push(
            if lo < 10 {
                48 + lo
            } else {
                87 + lo
            },
        );
        proof {
            assert(bytes@.subrange(0, i + 1).drop_last() =~= bytes@.subrange(0, i as int));
            assert(bytes@.subrange(0, i + 1).last() == bytes@[i as int]);
        }
        i = i + 1;
        proof {
            assert(out@ =~= spec_hex(bytes@.subrange(0, i as int)));
        }
    }
    proof {
        assert(bytes@.subrange(0, n as int) =~= bytes@);
    }
    out
}

/// Draw `len` random bytes (or the default) and render them as
/// lowercase hex, two digits per byte.
pub fn hex(interp: &mut Artichoke, len: Option<Value>) -> (r: Result<Value, Exception>)
    requires
        old(interp).wf(),
    ensures
        final(interp).wf(),
        *final(interp) == (Artichoke { prng: final(interp).prng, ..*old(interp) }),
        match len {
            Option::None => (r matches Ok(v) && v matches Value::Str(s) && s@ == spec_hex(
                spec_byte_stream(old(interp).prng.state, DEFAULT_REQUEST as nat),
            )),
            Option::Some(a) => match a {
                Value::Nil => (r matches Ok(v) && v matches Value::Str(s) && s@ == spec_hex(
                    spec_byte_stream(old(interp).prng.state, DEFAULT_REQUEST as nat),
                )),
                Value::Fixnum(m) => if 0 <= m <= usize::MAX {
                    (r matches Ok(v) && v matches Value::Str(s) && s@ == spec_hex(
                        spec_byte_stream(old(interp).prng.state, m as nat),
                    ))
                } else {
                    r is Err && *final(interp) == *old(interp)
                },
                _ => r is Err && *final(interp) == *old(interp),
            },
        },
{
    match random_bytes(interp, len) {
        Ok(Value::Str(bytes)) => Ok(Value::Str(hex_encode(&bytes))),
        Ok(_) => Err(
            Exception::NotImplemented(
                NotImplementedError::from_message(bstr::bytes_of("draw produced no bytes")),
            ),
        ),
        Err(e) => Err(e),
    }
}

/// The alphanumeric character drawn for a value below sixty-two:
/// capitals, then lowercase, then digits.
pub open spec fn spec_alnum_byte(d: i64) -> u8 {
    if 0 <= d < 26 {
        (65 + d) as u8
    } else if 26 <= d < 52 {
        (71 + d) as u8
    } else if 52 <= d < 62 {
        (d - 4) as u8
    } else {
        48u8
    }
}

/// The alphanumeric string drawn by `n` successive draws from `s`.
pub open spec fn spec_alnum_stream(s: u64, n: nat) -> Seq<u8>
    decreases n,
{
    if n == 0 {
        Seq::empty()
    } else {
        seq![spec_alnum_byte(spec_rand_int(s, 62))] + spec_alnum_stream(
            spec_next(s),
            (n - 1) as nat,
        )
    }
}

/// Appending one draw to an alphanumeric stream extends it by the next
/// character.
proof fn lemma_alnum_snoc(s: u64, n: nat)
    ensures
        spec_alnum_stream(s, n + 1) == spec_alnum_stream(s, n).push(
            spec_alnum_byte(spec_rand_int(spec_state_after(s, n), 62)),
        ),
        spec_state_after(s, n + 1) == spec_next(spec_state_after(s, n)),
    decreases n,
{
    let b = spec_alnum_byte(spec_rand_int(spec_state_after(s, n), 62));
    if n == 0 {
        assert(spec_state_after(s, 0) == s);
        assert(spec_state_after(s, 1) == spec_next(s)) by {
            assert(spec_state_after(spec_next(s), 0) == spec_next(s));
        }
        assert(spec_alnum_stream(s, 1) == seq![spec_alnum_byte(spec_rand_int(s, 62))]
            + spec_alnum_stream(spec_next(s), 0));
        assert(spec_alnum_stream(spec_next(s), 0) =~= Seq::<u8>::empty());
        assert(spec_alnum_stream(s, 1) =~= spec_alnum_stream(s, 0).push(b));
    } else {
        lemma_alnum_snoc(spec_next(s), (n - 1) as nat);
        assert(spec_alnum_stream(s, n + 1) == seq![spec_alnum_byte(spec_rand_int(s, 62))]
            + spec_alnum_stream(spec_next(s), n));
        assert(spec_alnum_stream(s, n + 1) =~= spec_alnum_stream(s, n).push(b));
    }
}

/// Draw `len` random alphanumeric characters (or the default) as a
/// string value.
pub fn alphanumeric(interp: &mut Artichoke, len: Option<Value>) -> (r: Result<Value, Exception>)
    requires
        old(interp).wf(),
    ensures
        final(interp).wf(),
        *final(interp) == (Artichoke { prng: final(interp).prng, ..*old(interp) }),
        match len {
            Option::None => (r matches Ok(v) && v matches Value::Str(s) && s@ == spec_alnum_stream(
                old(interp).prng.state,
                DEFAULT_REQUEST as nat,
            )),
            Option::Some(a) => match a {
                Value::Nil => (r matches Ok(v) && v matches Value::Str(s) && s@
                    == spec_alnum_stream(old(interp).prng.state, DEFAULT_REQUEST as nat)),
                Value::Fixnum(m) => if 0 <= m <= usize::MAX {
                    (r matches Ok(v) && v matches Value::Str(s) && s@ == spec_alnum_stream(
                        old(interp).prng.state,
                        m as nat,
                    ))
                } else {
                    r is Err && *final(interp) == *old(interp)
                },
                _ => r is Err && *final(interp) == *old(interp),
            },
        },
{
    let n = match resolve_length(interp, &len) {
        Ok(n) => n,
        Err(e) => {
            return Err(e);
        },
    };
    let mut out: Vec<u8> = Vec::new();
    let mut i: usize = 0;
    while i < n
        invariant
            i <= n,
            interp.wf(),
            *interp == (Artichoke { prng: interp.prng, ..*old(interp) }),
            interp.prng.seed == old(interp).prng.seed,
            interp.prng.state == spec_state_after(old(interp).prng.state, i as nat),
            out@ == spec_alnum_stream(old(interp).prng.state, i as nat),
        decreases n - i,
    {
        proof {
            lemma_alnum_snoc(old(interp).prng.state, i as nat);
        }
        let d = interp.prng.rand_int(62);
        let b: u8 = if d < 26 {
            (65 + d) as u8
        } else if d < 52 {
            (71 + d) as u8
        } else {
            (d - 4) as u8
        };
        out.push(b);
        i = i + 1;
    }
    Ok(Value::Str(out))
}

/// Draw a random integer below the given positive bound.
///
/// A bound that is absent, nil, or not a positive integer is refused:
/// without a bound the result would be a float, which this interpreter
/// does not provide.
pub fn random_number(interp: &mut Artichoke, max: Option<Value>) -> (r: Result<Value, Exception>)
    requires
        old(interp).wf(),
    ensures
        final(interp).wf(),
        *final(interp) == (Artichoke { prng: final(interp).prng, ..*old(interp) }),
        match max {
            Option::Some(a) => match a {
                Value::Fixnum(m) => if m > 0 {
                    (r matches Ok(v) && v == Value::Fixnum(
                        spec_rand_int(old(interp).prng.state, m),
                    ))
                } else {
                    r is Err && *final(interp) == *old(interp)
                },
                _ => r is Err && *final(interp) == *old(interp),
            },
            Option::None => r is Err && *final(interp) == *old(interp),
        },
{
    match max {
        Option::Some(Value::Fixnum(m)) => {
            if m > 0 {
                let drawn = interp.prng.rand_int(m);
                Ok(Value::Fixnum(drawn))
            } else {
                Err(
                    Exception::BadArgument(
                        BadArgumentError::from_message(bstr::bytes_of("invalid argument")),
                    ),
                )
            }
        },
        _ => Err(
            Exception::NotImplemented(
                NotImplementedError::from_message(
                    bstr::bytes_of("random floats are not provided by this interpreter"),
                ),
            ),
        ),
    }
}

/// Base64 digit for a value below sixty-four: capitals, lowercase,
/// digits, `+`, `/`.
pub open spec fn spec_b64_digit(d: int) -> u8 {
    if 0 <= d < 26 {
        (65 + d) as u8
    } else if 26 <= d < 52 {
        (71 + d) as u8
    } else if 52 <= d < 62 {
        (d - 4) as u8
    } else if d == 62 {
        43u8
    } else {
        47u8
    }
}

/// Standard padded base64 rendering of a byte string: three bytes
/// become four digits, a two-byte remainder three digits and one `=`,
/// a one-byte remainder two digits and two `=`.
pub open spec fn spec_base64(s: Seq<u8>) -> Seq<u8>
    decreases s.len(),
{
    if s.len() == 0 {
        Seq::empty()
    } else if s.len() == 1 {
        seq![
            spec_b64_digit(s[0] as int / 4),
            spec_b64_digit((s[0] as int % 4) * 16),
            61u8,
            61u8,
        ]
    } else if s.len() == 2 {
        seq![
            spec_b64_digit(s[0] as int / 4),
            spec_b64_digit((s[0] as int % 4) * 16 + s[1] as int / 16),
            spec_b64_digit((s[1] as int % 16) * 4),
            61u8,
        ]
    } else {
        seq![
            spec_b64_digit(s[0] as int / 4),
            spec_b64_digit((s[0] as int % 4) * 16 + s[1] as int / 16),
            spec_b64_digit((s[1] as int % 16) * 4 + s[2] as int / 64),
            spec_b64_digit(s[2] as int % 64),
        ] + spec_base64(s.skip(3))
    }
}

/// The base64 digit for a value below sixty-four.
fn b64_digit(d: u8) -> (r: u8)
    requires
        d < 64,
    ensures
        r == spec_b64_digit(d as int),
{
    if d < 26 {
        65 + d
    } else if d < 52 {
        71 + d
    } else if d < 62 {
        d - 4
    } else if d == 62 {
        43
    } else {
        47
    }
}

/// Render a byte string as standard padded base64.
#[verifier::loop_isolation(false)]
pub fn base64_encode(bytes: &Vec<u8>) -> (r: Vec<u8>)
    ensures
        r@ == spec_base64(bytes@),
{
    let n = bytes.len();
    let mut out: Vec<u8> = Vec::new();
    let mut i: usize = 0;
    proof {
        assert(bytes@.subrange(0, n as int) =~= bytes@);
        assert(out@ + spec_base64(bytes@) =~= spec_base64(bytes@));
    }
    while i < n && n - i >= 3
        invariant
            i <= n,
            out@ + spec_base64(bytes@.subrange(i as int, n as int)) == spec_base64(bytes@),
        decreases n - i,
    {
        let ghost suffix = bytes@.subrange(i as int, n as int);
        let b0 = bytes[i];
        let b1 = bytes[i + 1];
        let b2 = bytes[i + 2];
        proof {
            assert(suffix[0] == b0);
            assert(suffix[1] == b1);
            assert(suffix[2] == b2);
            assert(suffix.skip(3) =~= bytes@.subrange(i + 3, n as int));
        }
        out.push(b64_digit(b0 / 4));
        out.push(b64_digit((b0 % 4) * 16 + b1 / 16));
        out.push(b64_digit((b1 % 16) * 4 + b2 / 64));
        out.push(b64_digit(b2 % 64));
        i = i + 3;
        proof {
            assert(out@ + spec_base64(bytes@.subrange(i as int, n as int)) =~= spec_base64(
                bytes@,
            ));
        }
    }
    let ghost suffix = bytes@.subrange(i as int, n as int);
    if n - i == 1 {
        let b0 = bytes[i];
        proof {
            assert(suffix[0] == b0);
        }
        out.push(b64_digit(b0 / 4));
        out.push(b64_digit((b0 % 4) * 16));
        out.push(61);
        out.push(61);
    } else if n - i == 2 {
        let b0 = bytes[i];
        let b1 = bytes[i + 1];
        proof {
            assert(suffix[0] == b0);
            assert(suffix[1] == b1);
        }
        out.push(b64_digit(b0 / 4));
        out.push(b64_digit((b0 % 4) * 16 + b1 / 16));
        out.push(b64_digit((b1 % 16) * 4));
        out.push(61);
    }
    proof {
        assert(out@ =~= spec_base64(bytes@));
    }
    out
}

/// Draw `len` random bytes (or the default) and render them as
/// standard padded base64.
pub fn base64(interp: &mut Artichoke, len: Option<Value>) -> (r: Result<Value, Exception>)
    requires
        old(interp).wf(),
    ensures
        final(interp).wf(),
        *final(interp) == (Artichoke { prng: final(interp).prng, ..*old(interp) }),
        match len {
            Option::None => (r matches Ok(v) && v matches Value::Str(s) && s@ == spec_base64(
                spec_byte_stream(old(interp).prng.state, DEFAULT_REQUEST as nat),
            )),
            Option::Some(a) => match a {
                Value::Nil => (r matches Ok(v) && v matches Value::Str(s) && s@ == spec_base64(
                    spec_byte_stream(old(interp).prng.state, DEFAULT_REQUEST as nat),
                )),
                Value::Fixnum(m) => if 0 <= m <= usize::MAX {
                    (r matches Ok(v) && v matches Value::Str(s) && s@ == spec_base64(
                        spec_byte_stream(old(interp).prng.state, m as nat),
                    ))
                } else {
                    r is Err && *final(interp) == *old(interp)
                },
                _ => r is Err && *final(interp) == *old(interp),
            },
        },
{
    match random_bytes(interp, len) {
        Ok(Value::Str(bytes)) => Ok(Value::Str(base64_encode(&bytes))),
        Ok(_) => Err(
            Exception::NotImplemented(
                NotImplementedError::from_message(bstr::bytes_of("draw produced no bytes")),
            ),
        ),
        Err(e) => Err(e),
    }
}

/// The identifier drawn from state `s`: thirty-two hex digits of
/// sixteen random bytes grouped 8-4-4-4-12 with dashes, with the
/// version digit forced to `4` and the variant digit to `8`.
pub open spec fn spec_uuid(s: u64) -> Seq<u8> {
    let h = spec_hex(spec_byte_stream(s, 16));
    h.subrange(0, 8) + seq![45u8] + h.subrange(8, 12) + seq![45u8, 52u8] + h.subrange(13, 16)
        + seq![45u8, 56u8] + h.subrange(17, 20) + seq![45u8] + h.subrange(20, 32)
}

/// Two hex digits come out of every byte.
proof fn lemma_hex_len(s: Seq<u8>)
    ensures
        spec_hex(s).len() == 2 * s.len(),
    decreases s.len(),
{
    if s.len() > 0 {
        lemma_hex_len(s.drop_last());
    }
}

/// Draw a fresh random identifier in the 8-4-4-4-12 format.
pub fn uuid(interp: &mut Artichoke) -> (r: Result<Value, Exception>)
    requires
        old(interp).wf(),
    ensures
        final(interp).wf(),
        *final(interp) == (Artichoke { prng: final(interp).prng, ..*old(interp) }),
        r matches Ok(v) && v matches Value::Str(s) && s@ == spec_uuid(old(interp).prng.state),
{
    let mut buf: Vec<u8> = Vec::new();
    let mut i: usize = 0;
    while i < 16
        invariant
            i <= 16,
            buf@.len() == i,
        decreases 16 - i,
    {
        buf.push(0);
        i = i + 1;
    }
    interp.prng.bytes(&mut buf);
    let h = hex_encode(&buf);
    proof {
        lemma_hex_len(buf@);
    }
    let mut out = bstr::slice_range(&h, 0, 8);
    out.push(45);
    let piece = bstr::slice_range(&h, 8, 12);
    bstr::append_bytes(&mut out, &piece);
    out.push(45);
    out.push(52);
    let piece = bstr::slice_range(&h, 13, 16);
    bstr::append_bytes(&mut out, &piece);
    out.push(45);
    out.push(56);
    let piece = bstr::slice_range(&h, 17, 20);
    bstr::append_bytes(&mut out, &piece);
    out.push(45);
    let piece = bstr::slice_range(&h, 20, 32);
    bstr::append_bytes(&mut out, &piece);
    proof {
        assert(out@ =~= spec_uuid(old(interp).prng.state));
    }
    Ok(Value::Str(out))
}

} // verus!
