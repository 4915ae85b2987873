//! The types of the constants that the language itself defines.

use vstd::prelude::*;

use crate::ttype::atomics_model;
use crate::ttype::AtomicView;
use crate::ttype::LiteralView;
use crate::ttype::TAtomic;
use crate::ttype::TFloat;
use crate::ttype::TInteger;
use crate::ttype::TScalar;
use crate::ttype::TString;
use crate::ttype::TStringCasing;
use crate::ttype::TStringLiteral;
use crate::ttype::TUnion;
use crate::ttype::UnionView;
use crate::type_build::bool_atomic;
use crate::type_build::float_atomic;
use crate::type_build::general_non_empty_string;
use crate::type_build::general_string;
use crate::type_build::get_false;
use crate::type_build::get_float;
use crate::type_build::get_int;
use crate::type_build::get_non_empty_string;
use crate::type_build::get_non_negative_int;
use crate::type_build::get_null;
use crate::type_build::get_open_resource;
use crate::type_build::get_positive_int;
use crate::type_build::get_string;
use crate::type_build::get_true;
use crate::type_build::int_atomic;
use crate::type_build::integer;
use crate::type_build::string_atomic;
use crate::type_build::string_with;
use crate::type_build::union_of;
use crate::type_build::wrap_atomics;
use crate::type_build::wrap_integer;
use crate::word::eq_ignore_ascii_case;
use crate::word::lowercase;
use crate::word::lowercase_is_idempotent;
use crate::word::strip_leading_separator;
use crate::word::text;
use crate::word::without_leading_separator;
use crate::word::word;
use crate::word::word_is;
use crate::word::NAMESPACE_SEPARATOR;

verus! {

/// The type of one of the constants `true`, `false` and `null`, in letters of any case.
pub open spec fn literal_constant_type(name: Seq<u8>) -> Option<UnionView> {
    let name = lowercase(without_leading_separator(name));
    if name == lowercase(text("true")) {
        Some(union_of(bool_atomic(Some(true))))
    } else if name == lowercase(text("false")) {
        Some(union_of(bool_atomic(Some(false))))
    } else if name == lowercase(text("null")) {
        Some(union_of(AtomicView::Null))
    } else {
        None
    }
}

/// Neither the case of the letters nor a separator at the beginning makes a difference to a
/// predefined literal constant.
pub proof fn literal_constants_in_any_form(name: Seq<u8>)
    ensures
        literal_constant_type(lowercase(name)) == literal_constant_type(name),
        without_leading_separator(name) == name ==> literal_constant_type(seq![NAMESPACE_SEPARATOR] + name)
            == literal_constant_type(name),
{
    lowercase_is_idempotent(without_leading_separator(name));
    assert(without_leading_separator(lowercase(name)) =~= lowercase(without_leading_separator(name)));
    assert(without_leading_separator(seq![NAMESPACE_SEPARATOR] + name) =~= name);
}

/// Returns the type for a predefined literal constant, if known.
pub fn get_literal_constant_type(name: &[u8]) -> (t: Option<TUnion>)
    ensures
        match t {
            Some(u) => literal_constant_type(name@) == Some(u@),
            None => literal_constant_type(name@) is None,
        },
{
    let name = strip_leading_separator(name);
    if eq_ignore_ascii_case(name, "true".as_bytes()) {
        Some(get_true())
    } else if eq_ignore_ascii_case(name, "false".as_bytes()) {
        Some(get_false())
    } else if eq_ignore_ascii_case(name, "null".as_bytes()) {
        Some(get_null())
    } else {
        None
    }
}

/// The constant is an integer of which nothing more is known.
pub open spec fn is_integer_constant(name: Seq<u8>) -> bool {
    ||| name == text("PHP_MAXPATHLEN")
    ||| name == text("PHP_WINDOWS_VERSION_BUILD")
    ||| name == text("LIBXML_VERSION")
    ||| name == text("OPENSSL_VERSION_NUMBER")
    ||| name == text("PHP_FLOAT_DIG")
}

fn check_is_integer_constant(name: &[u8]) -> (holds: bool)
    ensures
        holds == is_integer_constant(name@),
{
    word_is(name, "PHP_MAXPATHLEN")
        || word_is(name, "PHP_WINDOWS_VERSION_BUILD")
        || word_is(name, "LIBXML_VERSION")
        || word_is(name, "OPENSSL_VERSION_NUMBER")
        || word_is(name, "PHP_FLOAT_DIG")
}

/// The constant is a string that is not empty.
pub open spec fn is_non_empty_string_constant(name: Seq<u8>) -> bool {
    ||| name == text("PHP_BUILD_DATE")
    ||| name == text("PEAR_EXTENSION_DIR")
    ||| name == text("PEAR_INSTALL_DIR")
    ||| name == text("PHP_BINARY")
    ||| name == text("PHP_BINDIR")
    ||| name == text("PHP_CONFIG_FILE_PATH")
    ||| name == text("PHP_CONFIG_FILE_SCAN_DIR")
    ||| name == text("PHP_DATADIR")
    ||| name == text("PHP_EXTENSION_DIR")
    ||| name == text("PHP_LIBDIR")
    ||| name == text("PHP_LOCALSTATEDIR")
    ||| name == text("PHP_MANDIR")
    ||| name == text("PHP_OS")
    ||| name == text("PHP_OS_FAMILY")
    ||| name == text("PHP_PREFIX")
    ||| name == text("PHP_EOL")
    ||| name == text("PATH_SEPARATOR")
    ||| name == text("PHP_VERSION")
    ||| name == text("PHP_SAPI")
    ||| name == text("PHP_SYSCONFDIR")
    ||| name == text("ICONV_IMPL")
    ||| name == text("LIBXML_DOTTED_VERSION")
    ||| name == text("PCRE_VERSION")
}

fn check_is_non_empty_string_constant(name: &[u8]) -> (holds: bool)
    ensures
        holds == is_non_empty_string_constant(name@),
{
    word_is(name, "PHP_BUILD_DATE")
        || word_is(name, "PEAR_EXTENSION_DIR")
        || word_is(name, "PEAR_INSTALL_DIR")
        || word_is(name, "PHP_BINARY")
        || word_is(name, "PHP_BINDIR")
        || word_is(name, "PHP_CONFIG_FILE_PATH")
        || word_is(name, "PHP_CONFIG_FILE_SCAN_DIR")
        || word_is(name, "PHP_DATADIR")
        || word_is(name, "PHP_EXTENSION_DIR")
        || word_is(name, "PHP_LIBDIR")
        || word_is(name, "PHP_LOCALSTATEDIR")
        || word_is(name, "PHP_MANDIR")
        || word_is(name, "PHP_OS")
        || word_is(name, "PHP_OS_FAMILY")
        || word_is(name, "PHP_PREFIX")
        || word_is(name, "PHP_EOL")
        || word_is(name, "PATH_SEPARATOR")
        || word_is(name, "PHP_VERSION")
        || word_is(name, "PHP_SAPI")
        || word_is(name, "PHP_SYSCONFDIR")
        || word_is(name, "ICONV_IMPL")
        || word_is(name, "LIBXML_DOTTED_VERSION")
        || word_is(name, "PCRE_VERSION")
}

/// The constant is an open resource.
pub open spec fn is_stream_constant(name: Seq<u8>) -> bool {
    ||| name == text("STDIN")
    ||| name == text("STDOUT")
    ||| name == text("STDERR")
}

fn check_is_stream_constant(name: &[u8]) -> (holds: bool)
    ensures
        holds == is_stream_constant(name@),
{
    word_is(name, "STDIN")
        || word_is(name, "STDOUT")
        || word_is(name, "STDERR")
}

/// The constant is a float.
pub open spec fn is_float_constant(name: Seq<u8>) -> bool {
    ||| name == text("NAN")
    ||| name == text("PHP_FLOAT_EPSILON")
    ||| name == text("INF")
}

fn check_is_float_constant(name: &[u8]) -> (holds: bool)
    ensures
        holds == is_float_constant(name@),
{
    word_is(name, "NAN")
        || word_is(name, "PHP_FLOAT_EPSILON")
        || word_is(name, "INF")
}

/// The constant is an integer that is not negative.
pub open spec fn is_small_version_constant(name: Seq<u8>) -> bool {
    ||| name == text("PHP_RELEASE_VERSION")
    ||| name == text("PHP_MINOR_VERSION")
}

fn check_is_small_version_constant(name: &[u8]) -> (holds: bool)
    ensures
        holds == is_small_version_constant(name@),
{
    word_is(name, "PHP_RELEASE_VERSION")
        || word_is(name, "PHP_MINOR_VERSION")
}

/// The constant is zero or one.
pub open spec fn is_switch_constant(name: Seq<u8>) -> bool {
    ||| name == text("PHP_ZTS")
    ||| name == text("PHP_DEBUG")
}

fn check_is_switch_constant(name: &[u8]) -> (holds: bool)
    ensures
        holds == is_switch_constant(name@),
{
    word_is(name, "PHP_ZTS")
        || word_is(name, "PHP_DEBUG")
}

/// A string that is known to separate the parts of a path.
pub open spec fn separator(s: &str) -> AtomicView {
    string_atomic(string_with(Some(LiteralView::Value(text(s))), false, true, true, TStringCasing::Lowercase))
}

fn make_separator(s: &str) -> (a: TAtomic)
    ensures
        a@ == separator(s),
{
    TAtomic::Scalar(
        TScalar::String(
            TString {
                literal: Some(TStringLiteral::Value(word(s))),
                is_numeric: false,
                is_truthy: true,
                is_non_empty: true,
                is_callable: false,
                casing: TStringCasing::Lowercase,
            },
        ),
    )
}

pub open spec fn windows_minor_versions() -> UnionView {
    UnionView {
        types: seq![
            int_atomic(TInteger::Literal(0)),
            int_atomic(TInteger::Literal(1)),
            int_atomic(TInteger::Literal(2)),
            int_atomic(TInteger::Literal(10)),
            int_atomic(TInteger::Literal(90)),
        ],
    }
}

fn get_windows_minor_versions() -> (u: TUnion)
    ensures
        u@ == windows_minor_versions(),
{
    let mut types: Vec<TAtomic> = Vec::new();
    types.push(integer(TInteger::Literal(0)));
    types.push(integer(TInteger::Literal(1)));
    types.push(integer(TInteger::Literal(2)));
    types.push(integer(TInteger::Literal(10)));
    types.push(integer(TInteger::Literal(90)));
    let u = TUnion { types };
    assert(atomics_model(u.types) =~= windows_minor_versions().types);
    u
}

/// The type of a constant whose value depends on the platform. The type covers all platforms.
pub open spec fn platform_constant_type(name: Seq<u8>) -> Option<UnionView> {
    let name = without_leading_separator(name);
    if is_integer_constant(name) {
        Some(union_of(int_atomic(TInteger::Unspecified)))
    } else if name == text("PHP_EXTRA_VERSION") {
        Some(union_of(string_atomic(general_string())))
    } else if is_non_empty_string_constant(name) {
        Some(union_of(string_atomic(general_non_empty_string())))
    } else if is_stream_constant(name) {
        Some(union_of(AtomicView::Resource(Some(false))))
    } else if is_float_constant(name) {
        Some(union_of(float_atomic(TFloat::Unspecified)))
    } else if name == text("PHP_VERSION_ID") {
        Some(union_of(int_atomic(TInteger::From(1))))
    } else if is_small_version_constant(name) {
        Some(union_of(int_atomic(TInteger::From(0))))
    } else if name == text("PHP_MAJOR_VERSION") {
        Some(union_of(int_atomic(TInteger::Range(8, 9))))
    } else if is_switch_constant(name) {
        Some(union_of(int_atomic(TInteger::Range(0, 1))))
    } else if name == text("PHP_INT_SIZE") {
        Some(union_of(int_atomic(TInteger::Range(4, 8))))
    } else if name == text("PHP_WINDOWS_VERSION_MAJOR") {
        Some(union_of(int_atomic(TInteger::Range(4, 6))))
    } else if name == text("DIRECTORY_SEPARATOR") {
        Some(UnionView { types: seq![separator("/"), separator("\\")] })
    } else if name == text("PHP_INT_MAX") {
        Some(
            UnionView {
                types: seq![
                    int_atomic(TInteger::Literal(i64::MAX)),
                    int_atomic(TInteger::Literal(i32::MAX as i64)),
                ],
            },
        )
    } else if name == text("PHP_INT_MIN") {
        Some(
            UnionView {
                types: seq![
                    int_atomic(TInteger::Literal(i64::MIN)),
                    int_atomic(TInteger::Literal(i32::MIN as i64)),
                ],
            },
        )
    } else if name == text("PHP_WINDOWS_VERSION_MINOR") {
        Some(windows_minor_versions())
    } else {
        None
    }
}

/// Returns the platform-aware type for a predefined constant, if known.
pub fn get_platform_constant_type(name: &[u8]) -> (t: Option<TUnion>)
    ensures
        match t {
            Some(u) => platform_constant_type(name@) == Some(u@),
            None => platform_constant_type(name@) is None,
        },
{
    let name = strip_leading_separator(name);
    if check_is_integer_constant(name) {
        Some(get_int())
    } else if word_is(name, "PHP_EXTRA_VERSION") {
        Some(get_string())
    } else if check_is_non_empty_string_constant(name) {
        Some(get_non_empty_string())
    } else if check_is_stream_constant(name) {
        Some(get_open_resource())
    } else if check_is_float_constant(name) {
        Some(get_float())
    } else if word_is(name, "PHP_VERSION_ID") {
        Some(get_positive_int())
    } else if check_is_small_version_constant(name) {
        Some(get_non_negative_int())
    } else if word_is(name, "PHP_MAJOR_VERSION") {
        Some(wrap_integer(TInteger::Range(8, 9)))
    } else if check_is_switch_constant(name) {
        Some(wrap_integer(TInteger::Range(0, 1)))
    } else if word_is(name, "PHP_INT_SIZE") {
        Some(wrap_integer(TInteger::Range(4, 8)))
    } else if word_is(name, "PHP_WINDOWS_VERSION_MAJOR") {
        Some(wrap_integer(TInteger::Range(4, 6)))
    } else if word_is(name, "DIRECTORY_SEPARATOR") {
        Some(wrap_atomics(make_separator("/"), make_separator("\\")))
    } else if word_is(name, "PHP_INT_MAX") {
        Some(wrap_atomics(integer(TInteger::Literal(i64::MAX)), integer(TInteger::Literal(i32::MAX as i64))))
    } else if word_is(name, "PHP_INT_MIN") {
        Some(wrap_atomics(integer(TInteger::Literal(i64::MIN)), integer(TInteger::Literal(i32::MIN as i64))))
    } else if word_is(name, "PHP_WINDOWS_VERSION_MINOR") {
        Some(get_windows_minor_versions())
    } else {
        None
    }
}

} // verus!
