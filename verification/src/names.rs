//! Names of modules, exports and operations of the run-time system.

use crate::ir::Intrinsic;
use crate::text::{Text, str_eq};
use vstd::prelude::*;
use vstd::string::{StrSliceExecFns, StringExecFns};

verus! {

/// The character that stands for `c` in a symbol.
pub open spec fn mangled(c: char) -> char {
    if c == '/' || c == '-' {
        '_'
    } else {
        c
    }
}

/// The symbol prefix of the exports of the module at `path`.
pub open spec fn mangled_path(path: Seq<char>) -> Seq<char> {
    path.map_values(|c: char| mangled(c))
}

/// The symbol prefix of the exports of the module at `path`: the path with every `/` and
/// every `-` replaced by `_`.
pub fn mangle_module_key(path: &str) -> (r: String)
    ensures
        r@ == mangled_path(path@),
{
    proof {
        reveal_strlit("_");
    }
    let n: usize = path.unicode_len();
    let mut r: String = String::new();
    let mut i: usize = 0;
    while i < n
        invariant
            n == path@.len(),
            i <= n,
            "_"@ == seq!['_'],
            r@ == mangled_path(path@.take(i as int)),
        decreases n - i,
    {
        let c: char = path.get_char(i);
        if c == '/' || c == '-' {
            r.append("_");
        } else {
            r.append(path.substring_char(i, i + 1));
        }
        assert(r@ =~= mangled_path(path@.take(i + 1)));
        i = i + 1;
    }
    assert(path@.take(n as int) =~= path@);
    r
}

/// A mangled path holds neither `/` nor `-`, and it is as long as the path.
pub proof fn mangled_path_is_a_symbol(path: Seq<char>)
    ensures
        mangled_path(path).len() == path.len(),
        forall|i: int|
            0 <= i < path.len() ==> #[trigger] mangled_path(path)[i] != '/'
                && mangled_path(path)[i] != '-',
{
}

/// Mangling a mangled path changes nothing.
pub proof fn mangling_is_idempotent(path: Seq<char>)
    ensures
        mangled_path(mangled_path(path))
            == mangled_path(path),
{
    assert(mangled_path(mangled_path(path))
        =~= mangled_path(path));
}

/// A path without `/` and `-` is its own symbol prefix.
pub proof fn plain_path_is_unchanged(path: Seq<char>)
    requires
        forall|i: int| 0 <= i < path.len() ==> path[i] != '/' && path[i] != '-',
    ensures
        mangled_path(path) == path,
{
    assert(mangled_path(path) =~= path);
}

/// What stands before the first `c`; everything where there is none.
pub open spec fn until_first(s: Seq<char>, c: char) -> Seq<char>
    decreases s.len(),
{
    if s.len() == 0 || s[0] == c {
        Seq::empty()
    } else {
        seq![s[0]] + until_first(s.drop_first(), c)
    }
}

/// What stands behind the last `c`; everything where there is none.
pub open spec fn after_last(s: Seq<char>, c: char) -> Seq<char>
    decreases s.len(),
{
    if s.len() == 0 || s.last() == c {
        Seq::empty()
    } else {
        after_last(s.drop_last(), c).push(s.last())
    }
}

/// Where `c` first stands at `k`, what stands before it is the first `k` characters.
proof fn until_first_at(s: Seq<char>, c: char, k: int)
    requires
        0 <= k <= s.len(),
        forall|j: int| 0 <= j < k ==> s[j] != c,
        k == s.len() || s[k] == c,
    ensures
        until_first(s, c) == s.take(k),
    decreases k,
{
    if k == 0 {
        assert(s.take(0) =~= Seq::empty());
    } else {
        until_first_at(s.drop_first(), c, k - 1);
        assert(seq![s[0]] + s.drop_first().take(k - 1) =~= s.take(k));
    }
}

/// Where `c` last stands before `k`, what stands behind it are the characters from `k` on.
proof fn after_last_at(s: Seq<char>, c: char, k: int)
    requires
        0 <= k <= s.len(),
        forall|j: int| k <= j < s.len() ==> s[j] != c,
        k == 0 || s[k - 1] == c,
    ensures
        after_last(s, c) == s.skip(k),
    decreases s.len() - k,
{
    if k == s.len() {
        assert(s.skip(k) =~= Seq::empty());
    } else {
        after_last_at(s.drop_last(), c, k);
        assert(s.drop_last().skip(k).push(s.last()) =~= s.skip(k));
    }
}

/// Cuts a text off at the first `c`.
pub fn cut_at_first(s: &str, c: char) -> (r: String)
    ensures
        r@ == until_first(s@, c),
{
    let n: usize = s.unicode_len();
    let mut i: usize = 0;
    while i < n && s.get_char(i) != c
        invariant
            n == s@.len(),
            i <= n,
            forall|j: int| 0 <= j < i ==> s@[j] != c,
        decreases n - i,
    {
        i = i + 1;
    }
    proof {
        until_first_at(s@, c, i as int);
        assert(s@.subrange(0, i as int) =~= s@.take(i as int));
    }
    s.substring_char(0, i).to_owned()
}

/// Drops a text up to and with the last `c`.
pub fn drop_to_last(s: &str, c: char) -> (r: String)
    ensures
        r@ == after_last(s@, c),
{
    let n: usize = s.unicode_len();
    let mut i: usize = n;
    while i > 0 && s.get_char(i - 1) != c
        invariant
            n == s@.len(),
            i <= n,
            forall|j: int| i <= j < n ==> s@[j] != c,
        decreases i,
    {
        i = i - 1;
    }
    proof {
        after_last_at(s@, c, i as int);
        assert(s@.subrange(i as int, n as int) =~= s@.skip(i as int));
    }
    s.substring_char(i, n).to_owned()
}

/// `s` begins with `p`.
pub open spec fn begins_with(s: Seq<char>, p: Seq<char>) -> bool {
    p.len() <= s.len() && s.take(p.len() as int) == p
}

/// Whether a text begins with `p`.
pub fn starts_with(s: &str, p: &str) -> (r: bool)
    ensures
        r == begins_with(s@, p@),
{
    let n: usize = s.unicode_len();
    let m: usize = p.unicode_len();
    if m > n {
        return false;
    }
    assert(s@.subrange(0, m as int) =~= s@.take(m as int));
    str_eq(s.substring_char(0, m), p)
}

/// A text without the prefix `p`, where it has it.
pub fn strip_prefix(s: &str, p: &str) -> (r: Option<String>)
    ensures
        match r {
            Some(t) => begins_with(s@, p@) && t@ == s@.skip(p@.len() as int),
            None => !begins_with(s@, p@),
        },
{
    if starts_with(s, p) {
        let n: usize = s.unicode_len();
        let m: usize = p.unicode_len();
        assert(s@.subrange(m as int, n as int) =~= s@.skip(m as int));
        Some(s.substring_char(m, n).to_owned())
    } else {
        None
    }
}

/// The export that a symbol names: without what follows the first `$`, and without the
/// module in front of the last `_`.
pub open spec fn export_of(sym: Seq<char>) -> Seq<char> {
    after_last(until_first(sym, '$'), '_')
}

/// The export that a symbol names.
pub fn export_name(sym: &str) -> (r: String)
    ensures
        r@ == export_of(sym@),
{
    let base: String = cut_at_first(sym, '$');
    drop_to_last(base.as_str(), '_')
}

/// The operation makes an array of unboxed elements.
pub open spec fn flat_producer_op(name: Seq<char>) -> bool {
    ||| name == "lin_range"@
    ||| name == "lin_map"@
    ||| name == "lin_filter"@
    ||| name == "lin_array_allocate"@
    ||| name == "lin_array_allocate_filled"@
}

/// Whether the operation makes an array whose number elements are unboxed.
pub fn is_flat_producer_name(name: &str) -> (r: bool)
    ensures
        r == flat_producer_op(name@),
{
    str_eq(name, "lin_range") || str_eq(name, "lin_map") || str_eq(name, "lin_filter") || str_eq(
        name,
        "lin_array_allocate",
    ) || str_eq(name, "lin_array_allocate_filled")
}

/// The export makes an array of unboxed elements.
pub open spec fn flat_producer_export(name: Seq<char>) -> bool {
    ||| name == "range"@
    ||| name == "map"@
    ||| name == "filter"@
    ||| name == "arrayAllocate"@
    ||| name == "arrayAllocateFilled"@
}

/// Whether the export makes an array whose number elements are unboxed.
pub fn is_flat_producer_export(name: &str) -> (r: bool)
    ensures
        r == flat_producer_export(name@),
{
    str_eq(name, "range") || str_eq(name, "map") || str_eq(name, "filter") || str_eq(
        name,
        "arrayAllocate",
    ) || str_eq(name, "arrayAllocateFilled")
}

/// Whether the symbol, of a specialised function too, names an export that makes an array
/// whose number elements are unboxed.
pub fn is_flat_producer_spec_name(name: &str) -> (r: bool)
    ensures
        r == flat_producer_export(export_of(name@)),
{
    let base: String = export_name(name);
    is_flat_producer_export(base.as_str())
}

/// Whether the symbol, of a specialised function too, names the range export.
pub fn is_range_spec_name(name: &str) -> (r: bool)
    ensures
        r == (export_of(name@) == "range"@),
{
    let base: String = export_name(name);
    str_eq(base.as_str(), "range")
}

/// A combinator over a collection.
#[derive(Clone, Copy, PartialEq, Eq, Structural)]
pub enum Combinator {
    For,
    While,
    MapEach,
    Filter,
    Reduce,
    Range,
    FlatMap,
    AnyOf,
    Every,
    Find,
}

/// The symbol without what follows the first `$` and without the module prefix of the
/// iteration or the array library.
pub open spec fn library_export(sym: Seq<char>) -> Seq<char> {
    let base = until_first(sym, '$');
    if begins_with(base, "std_iter_"@) {
        base.skip("std_iter_"@.len() as int)
    } else if begins_with(base, "std_array_"@) {
        base.skip("std_array_"@.len() as int)
    } else {
        base
    }
}

/// The combinator that a library export is, of those that take part in fusion by name.
pub open spec fn base_combinator(name: Seq<char>) -> Option<Combinator> {
    if name == "flatMap"@ {
        Some(Combinator::FlatMap)
    } else if name == "some"@ {
        Some(Combinator::AnyOf)
    } else if name == "every"@ {
        Some(Combinator::Every)
    } else if name == "find"@ {
        Some(Combinator::Find)
    } else {
        None
    }
}

/// The combinator that a symbol names: `flatMap`, `some`, `every` or `find`, with or without
/// the prefix of its library and the suffix of a specialised function.
pub fn combinator_base_name(sym: &str) -> (r: Option<Combinator>)
    ensures
        r == base_combinator(library_export(sym@)),
{
    let base: String = cut_at_first(sym, '$');
    let name: String = match strip_prefix(base.as_str(), "std_iter_") {
        Some(t) => t,
        None => match strip_prefix(base.as_str(), "std_array_") {
            Some(t) => t,
            None => base,
        },
    };
    if str_eq(name.as_str(), "flatMap") {
        Some(Combinator::FlatMap)
    } else if str_eq(name.as_str(), "some") {
        Some(Combinator::AnyOf)
    } else if str_eq(name.as_str(), "every") {
        Some(Combinator::Every)
    } else if str_eq(name.as_str(), "find") {
        Some(Combinator::Find)
    } else {
        None
    }
}

/// The combinator of a bare name, where a call with `n` arguments can be one.
pub open spec fn called_combinator(name: Seq<char>, n: nat) -> Option<Combinator> {
    if name == "map"@ {
        Some(Combinator::MapEach)
    } else if name == "filter"@ {
        Some(Combinator::Filter)
    } else if name == "reduce"@ {
        Some(Combinator::Reduce)
    } else if name == "for"@ {
        Some(Combinator::For)
    } else if name == "while"@ && n >= 2 {
        Some(Combinator::While)
    } else if name == "range"@ {
        Some(Combinator::Range)
    } else if name == "flatMap"@ {
        Some(Combinator::FlatMap)
    } else {
        None
    }
}

/// The combinator of a bare name; a `while` counts only with two arguments or more.
pub fn combinator_of_name(name: &str, two_or_more: bool) -> (r: Option<Combinator>)
    ensures
        r == called_combinator(name@, if two_or_more {
            2
        } else {
            0
        }),
{
    if str_eq(name, "map") {
        Some(Combinator::MapEach)
    } else if str_eq(name, "filter") {
        Some(Combinator::Filter)
    } else if str_eq(name, "reduce") {
        Some(Combinator::Reduce)
    } else if str_eq(name, "for") {
        Some(Combinator::For)
    } else if str_eq(name, "while") && two_or_more {
        Some(Combinator::While)
    } else if str_eq(name, "range") {
        Some(Combinator::Range)
    } else if str_eq(name, "flatMap") {
        Some(Combinator::FlatMap)
    } else {
        None
    }
}

/// The operation without its `lin_` prefix, where it has one.
pub open spec fn bare_op(name: Seq<char>) -> Seq<char> {
    if begins_with(name, "lin_"@) {
        name.skip("lin_"@.len() as int)
    } else {
        name
    }
}

/// The operation without its `lin_` prefix, where it has one.
pub fn bare_op_name(name: &str) -> (r: String)
    ensures
        r@ == bare_op(name@),
{
    match strip_prefix(name, "lin_") {
        Some(t) => t,
        None => name.to_owned(),
    }
}

/// The position of the callback of a combinator that does not let it escape.
pub open spec fn safe_callback(name: Seq<char>) -> Option<usize> {
    if name == "for"@ || name == "while"@ || name == "map"@ || name == "filter"@ || name == "find"@
        || name == "some"@ || name == "every"@ || name == "lin_some"@ || name == "lin_every"@
        || name == "lin_find"@ {
        Some(1usize)
    } else if name == "reduce"@ {
        Some(2usize)
    } else {
        None
    }
}

/// The position of the callback of a combinator that does not let it escape; `None` for
/// every other name.
pub fn safe_combinator_callback_index(name: &str) -> (r: Option<usize>)
    ensures
        r == safe_callback(name@),
{
    if str_eq(name, "for") || str_eq(name, "while") || str_eq(name, "map") || str_eq(name, "filter")
        || str_eq(name, "find") || str_eq(name, "some") || str_eq(name, "every") || str_eq(
        name,
        "lin_some",
    ) || str_eq(name, "lin_every") || str_eq(name, "lin_find") {
        Some(1usize)
    } else if str_eq(name, "reduce") {
        Some(2usize)
    } else {
        None
    }
}

/// The stream operation of an export of the iteration library.
pub open spec fn stream_op(export: Seq<char>) -> Option<&'static str> {
    if export == "map"@ {
        Some("lin_stream_map")
    } else if export == "filter"@ {
        Some("lin_stream_filter")
    } else if export == "take"@ {
        Some("lin_stream_take")
    } else if export == "drop"@ {
        Some("lin_stream_drop")
    } else if export == "takeWhile"@ {
        Some("lin_stream_take_while")
    } else if export == "dropWhile"@ {
        Some("lin_stream_drop_while")
    } else if export == "flatMap"@ {
        Some("lin_stream_flat_map")
    } else if export == "flatten"@ {
        Some("lin_stream_flatten")
    } else if export == "concat"@ {
        Some("lin_stream_concat")
    } else if export == "sliding"@ {
        Some("lin_stream_sliding")
    } else if export == "pairwise"@ {
        Some("lin_stream_pairwise")
    } else if export == "intersperse"@ {
        Some("lin_stream_intersperse")
    } else if export == "dedup"@ {
        Some("lin_stream_dedup")
    } else if export == "zipWith"@ {
        Some("lin_stream_zip_with")
    } else if export == "reduce"@ {
        Some("lin_stream_reduce")
    } else if export == "find"@ {
        Some("lin_stream_find")
    } else if export == "some"@ {
        Some("lin_stream_some")
    } else if export == "every"@ {
        Some("lin_stream_every")
    } else if export == "while"@ {
        Some("lin_stream_while")
    } else if export == "for"@ {
        Some("lin_stream_for")
    } else {
        None
    }
}

/// The stream operation of an export of the iteration library; `None` for an export that has
/// none.
pub fn stream_op_name(export: &str) -> (r: Option<&'static str>)
    ensures
        r == stream_op(export@),
{
    if str_eq(export, "map") {
        Some("lin_stream_map")
    } else if str_eq(export, "filter") {
        Some("lin_stream_filter")
    } else if str_eq(export, "take") {
        Some("lin_stream_take")
    } else if str_eq(export, "drop") {
        Some("lin_stream_drop")
    } else if str_eq(export, "takeWhile") {
        Some("lin_stream_take_while")
    } else if str_eq(export, "dropWhile") {
        Some("lin_stream_drop_while")
    } else if str_eq(export, "flatMap") {
        Some("lin_stream_flat_map")
    } else if str_eq(export, "flatten") {
        Some("lin_stream_flatten")
    } else if str_eq(export, "concat") {
        Some("lin_stream_concat")
    } else if str_eq(export, "sliding") {
        Some("lin_stream_sliding")
    } else if str_eq(export, "pairwise") {
        Some("lin_stream_pairwise")
    } else if str_eq(export, "intersperse") {
        Some("lin_stream_intersperse")
    } else if str_eq(export, "dedup") {
        Some("lin_stream_dedup")
    } else if str_eq(export, "zipWith") {
        Some("lin_stream_zip_with")
    } else if str_eq(export, "reduce") {
        Some("lin_stream_reduce")
    } else if str_eq(export, "find") {
        Some("lin_stream_find")
    } else if str_eq(export, "some") {
        Some("lin_stream_some")
    } else if str_eq(export, "every") {
        Some("lin_stream_every")
    } else if str_eq(export, "while") {
        Some("lin_stream_while")
    } else if str_eq(export, "for") {
        Some("lin_stream_for")
    } else {
        None
    }
}

/// How the name of an operation is lowered.
pub enum Builtin {
    Range,
    For,
    While,
    Iter,
    MapEach,
    Filter,
    Reduce,
    Sort,
    AnyOf,
    Every,
    Find,
    /// By one instruction.
    Op(Intrinsic),
    /// By a call of the function of that name.
    Unknown,
}

/// The combinator that the name of an operation stands for.
pub open spec fn loop_builtin(name: Seq<char>) -> Option<Builtin> {
    if name == "lin_range"@ {
        Some(Builtin::Range)
    } else if name == "lin_for"@ {
        Some(Builtin::For)
    } else if name == "lin_while"@ {
        Some(Builtin::While)
    } else if name == "lin_iter"@ {
        Some(Builtin::Iter)
    } else if name == "lin_map"@ {
        Some(Builtin::MapEach)
    } else if name == "lin_filter"@ {
        Some(Builtin::Filter)
    } else if name == "lin_reduce"@ {
        Some(Builtin::Reduce)
    } else if name == "lin_sort"@ {
        Some(Builtin::Sort)
    } else if name == "lin_some"@ {
        Some(Builtin::AnyOf)
    } else if name == "lin_every"@ {
        Some(Builtin::Every)
    } else if name == "lin_find"@ {
        Some(Builtin::Find)
    } else {
        None
    }
}

/// The combinator that the name of an operation stands for.
fn loop_builtin_of(name: &str) -> (r: Option<Builtin>)
    ensures
        r == loop_builtin(name@),
{
    if str_eq(name, "lin_range") {
        Some(Builtin::Range)
    } else if str_eq(name, "lin_for") {
        Some(Builtin::For)
    } else if str_eq(name, "lin_while") {
        Some(Builtin::While)
    } else if str_eq(name, "lin_iter") {
        Some(Builtin::Iter)
    } else if str_eq(name, "lin_map") {
        Some(Builtin::MapEach)
    } else if str_eq(name, "lin_filter") {
        Some(Builtin::Filter)
    } else if str_eq(name, "lin_reduce") {
        Some(Builtin::Reduce)
    } else if str_eq(name, "lin_sort") {
        Some(Builtin::Sort)
    } else if str_eq(name, "lin_some") {
        Some(Builtin::AnyOf)
    } else if str_eq(name, "lin_every") {
        Some(Builtin::Every)
    } else if str_eq(name, "lin_find") {
        Some(Builtin::Find)
    } else {
        None
    }
}

/// The instruction that the name of a general operation stands for.
pub open spec fn general_op(name: Seq<char>) -> Option<Intrinsic> {
    if name == "lin_print"@ {
        Some(Intrinsic::Print)
    } else if name == "lin_to_string"@ {
        Some(Intrinsic::ToString)
    } else if name == "lin_length"@ {
        Some(Intrinsic::Length)
    } else if name == "lin_push"@ {
        Some(Intrinsic::Push)
    } else if name == "lin_object_set"@ {
        Some(Intrinsic::ObjectSetDyn)
    } else if name == "lin_array_set"@ {
        Some(Intrinsic::ArraySetDyn)
    } else if name == "lin_keys"@ {
        Some(Intrinsic::Keys)
    } else if name == "lin_value_key"@ {
        Some(Intrinsic::ValueKey)
    } else if name == "lin_to_json"@ {
        Some(Intrinsic::ToJson)
    } else if name == "lin_array_allocate"@ {
        Some(Intrinsic::ArrayAllocate)
    } else if name == "lin_array_allocate_filled"@ {
        Some(Intrinsic::ArrayAllocateFilled)
    } else if name == "concat"@ {
        Some(Intrinsic::Concat)
    } else if name == "lin_async"@ {
        Some(Intrinsic::Async)
    } else if name == "lin_pool_async"@ {
        Some(Intrinsic::Async)
    } else if name == "lin_await"@ {
        Some(Intrinsic::Await)
    } else if name == "lin_exit"@ {
        Some(Intrinsic::Exit)
    } else if name == "lin_parallel"@ {
        Some(Intrinsic::Parallel)
    } else if name == "lin_race"@ {
        Some(Intrinsic::Race)
    } else if name == "lin_timeout"@ {
        Some(Intrinsic::Timeout)
    } else if name == "lin_retry"@ {
        Some(Intrinsic::Retry)
    } else if name == "lin_thread_pool"@ {
        Some(Intrinsic::ThreadPool)
    } else if name == "lin_shared"@ {
        Some(Intrinsic::SharedNew)
    } else if name == "lin_shared_get"@ {
        Some(Intrinsic::SharedGet)
    } else if name == "lin_shared_set"@ {
        Some(Intrinsic::SharedSet)
    } else if name == "lin_shared_with_lock"@ {
        Some(Intrinsic::SharedWithLock)
    } else if name == "lin_freeze"@ {
        Some(Intrinsic::Freeze)
    } else if name == "lin_worker"@ {
        Some(Intrinsic::Worker)
    } else if name == "lin_serve"@ {
        Some(Intrinsic::Serve)
    } else if name == "lin_request"@ {
        Some(Intrinsic::Request)
    } else if name == "lin_message"@ {
        Some(Intrinsic::Message)
    } else if name == "lin_close"@ {
        Some(Intrinsic::Close)
    } else {
        None
    }
}

/// The instruction that the name of a general operation stands for.
fn general_op_of(name: &str) -> (r: Option<Intrinsic>)
    ensures
        r == general_op(name@),
{
    if str_eq(name, "lin_print") {
        Some(Intrinsic::Print)
    } else if str_eq(name, "lin_to_string") {
        Some(Intrinsic::ToString)
    } else if str_eq(name, "lin_length") {
        Some(Intrinsic::Length)
    } else if str_eq(name, "lin_push") {
        Some(Intrinsic::Push)
    } else if str_eq(name, "lin_object_set") {
        Some(Intrinsic::ObjectSetDyn)
    } else if str_eq(name, "lin_array_set") {
        Some(Intrinsic::ArraySetDyn)
    } else if str_eq(name, "lin_keys") {
        Some(Intrinsic::Keys)
    } else if str_eq(name, "lin_value_key") {
        Some(Intrinsic::ValueKey)
    } else if str_eq(name, "lin_to_json") {
        Some(Intrinsic::ToJson)
    } else if str_eq(name, "lin_array_allocate") {
        Some(Intrinsic::ArrayAllocate)
    } else if str_eq(name, "lin_array_allocate_filled") {
        Some(Intrinsic::ArrayAllocateFilled)
    } else if str_eq(name, "concat") {
        Some(Intrinsic::Concat)
    } else if str_eq(name, "lin_async") {
        Some(Intrinsic::Async)
    } else if str_eq(name, "lin_pool_async") {
        Some(Intrinsic::Async)
    } else if str_eq(name, "lin_await") {
        Some(Intrinsic::Await)
    } else if str_eq(name, "lin_exit") {
        Some(Intrinsic::Exit)
    } else if str_eq(name, "lin_parallel") {
        Some(Intrinsic::Parallel)
    } else if str_eq(name, "lin_race") {
        Some(Intrinsic::Race)
    } else if str_eq(name, "lin_timeout") {
        Some(Intrinsic::Timeout)
    } else if str_eq(name, "lin_retry") {
        Some(Intrinsic::Retry)
    } else if str_eq(name, "lin_thread_pool") {
        Some(Intrinsic::ThreadPool)
    } else if str_eq(name, "lin_shared") {
        Some(Intrinsic::SharedNew)
    } else if str_eq(name, "lin_shared_get") {
        Some(Intrinsic::SharedGet)
    } else if str_eq(name, "lin_shared_set") {
        Some(Intrinsic::SharedSet)
    } else if str_eq(name, "lin_shared_with_lock") {
        Some(Intrinsic::SharedWithLock)
    } else if str_eq(name, "lin_freeze") {
        Some(Intrinsic::Freeze)
    } else if str_eq(name, "lin_worker") {
        Some(Intrinsic::Worker)
    } else if str_eq(name, "lin_serve") {
        Some(Intrinsic::Serve)
    } else if str_eq(name, "lin_request") {
        Some(Intrinsic::Request)
    } else if str_eq(name, "lin_message") {
        Some(Intrinsic::Message)
    } else if str_eq(name, "lin_close") {
        Some(Intrinsic::Close)
    } else {
        None
    }
}

/// The instruction that the name of a stream operation stands for.
pub open spec fn stream_intrinsic(name: Seq<char>) -> Option<Intrinsic> {
    if name == "lin_fs_open"@ {
        Some(Intrinsic::StreamOpen)
    } else if name == "lin_stream_read"@ {
        Some(Intrinsic::StreamRead)
    } else if name == "lin_stream_close"@ {
        Some(Intrinsic::StreamClose)
    } else if name == "lin_stream_map"@ {
        Some(Intrinsic::StreamMap)
    } else if name == "lin_stream_filter"@ {
        Some(Intrinsic::StreamFilter)
    } else if name == "lin_stream_take"@ {
        Some(Intrinsic::StreamTake)
    } else if name == "lin_stream_drop"@ {
        Some(Intrinsic::StreamDrop)
    } else if name == "lin_stream_take_while"@ {
        Some(Intrinsic::StreamTakeWhile)
    } else if name == "lin_stream_drop_while"@ {
        Some(Intrinsic::StreamDropWhile)
    } else if name == "lin_stream_flat_map"@ {
        Some(Intrinsic::StreamFlatMap)
    } else if name == "lin_stream_flatten"@ {
        Some(Intrinsic::StreamFlatten)
    } else if name == "lin_stream_concat"@ {
        Some(Intrinsic::StreamConcat)
    } else if name == "lin_stream_sliding"@ {
        Some(Intrinsic::StreamSliding)
    } else if name == "lin_stream_pairwise"@ {
        Some(Intrinsic::StreamPairwise)
    } else if name == "lin_stream_intersperse"@ {
        Some(Intrinsic::StreamIntersperse)
    } else if name == "lin_stream_dedup"@ {
        Some(Intrinsic::StreamDedup)
    } else if name == "lin_stream_zip_with"@ {
        Some(Intrinsic::StreamZipWith)
    } else if name == "lin_stream_count"@ {
        Some(Intrinsic::StreamCount)
    } else if name == "lin_stream_repeat"@ {
        Some(Intrinsic::StreamRepeat)
    } else if name == "lin_stream_cycle"@ {
        Some(Intrinsic::StreamCycle)
    } else if name == "lin_stream_gunzip"@ {
        Some(Intrinsic::StreamGunzip)
    } else if name == "lin_stream_gzip"@ {
        Some(Intrinsic::StreamGzip)
    } else if name == "lin_stream_inflate"@ {
        Some(Intrinsic::StreamInflate)
    } else if name == "lin_stream_deflate"@ {
        Some(Intrinsic::StreamDeflate)
    } else if name == "lin_stream_untar"@ {
        Some(Intrinsic::StreamUntar)
    } else if name == "lin_stream_manifest"@ {
        Some(Intrinsic::StreamManifest)
    } else if name == "lin_stream_files"@ {
        Some(Intrinsic::StreamFiles)
    } else if name == "lin_stream_tar_entries"@ {
        Some(Intrinsic::StreamTarEntries)
    } else if name == "lin_tar_header"@ {
        Some(Intrinsic::TarHeader)
    } else if name == "lin_tar_body"@ {
        Some(Intrinsic::TarBody)
    } else if name == "lin_stream_reduce"@ {
        Some(Intrinsic::StreamReduce)
    } else if name == "lin_stream_find"@ {
        Some(Intrinsic::StreamFind)
    } else if name == "lin_stream_some"@ {
        Some(Intrinsic::StreamSome)
    } else if name == "lin_stream_every"@ {
        Some(Intrinsic::StreamEvery)
    } else if name == "lin_stream_while"@ {
        Some(Intrinsic::StreamWhile)
    } else if name == "lin_stream_lines"@ {
        Some(Intrinsic::StreamLines)
    } else if name == "lin_stream_chunks"@ {
        Some(Intrinsic::StreamChunks)
    } else if name == "lin_stream_write"@ {
        Some(Intrinsic::StreamWrite)
    } else if name == "lin_stream_write_lines"@ {
        Some(Intrinsic::StreamWriteLines)
    } else if name == "lin_stream_drain"@ {
        Some(Intrinsic::StreamDrain)
    } else if name == "lin_stream_collect"@ {
        Some(Intrinsic::StreamCollect)
    } else if name == "lin_stream_read_text"@ {
        Some(Intrinsic::StreamReadText)
    } else if name == "lin_net_tcp_stream"@ {
        Some(Intrinsic::StreamTcp)
    } else if name == "lin_process_stdout_stream"@ {
        Some(Intrinsic::StreamStdout)
    } else if name == "lin_io_stdin_stream"@ {
        Some(Intrinsic::StreamStdin)
    } else if name == "lin_stream_promise"@ {
        Some(Intrinsic::StreamPromise)
    } else {
        None
    }
}

/// The instruction that the name of a stream operation stands for.
fn stream_intrinsic_of(name: &str) -> (r: Option<Intrinsic>)
    ensures
        r == stream_intrinsic(name@),
{
    if str_eq(name, "lin_fs_open") {
        Some(Intrinsic::StreamOpen)
    } else if str_eq(name, "lin_stream_read") {
        Some(Intrinsic::StreamRead)
    } else if str_eq(name, "lin_stream_close") {
        Some(Intrinsic::StreamClose)
    } else if str_eq(name, "lin_stream_map") {
        Some(Intrinsic::StreamMap)
    } else if str_eq(name, "lin_stream_filter") {
        Some(Intrinsic::StreamFilter)
    } else if str_eq(name, "lin_stream_take") {
        Some(Intrinsic::StreamTake)
    } else if str_eq(name, "lin_stream_drop") {
        Some(Intrinsic::StreamDrop)
    } else if str_eq(name, "lin_stream_take_while") {
        Some(Intrinsic::StreamTakeWhile)
    } else if str_eq(name, "lin_stream_drop_while") {
        Some(Intrinsic::StreamDropWhile)
    } else if str_eq(name, "lin_stream_flat_map") {
        Some(Intrinsic::StreamFlatMap)
    } else if str_eq(name, "lin_stream_flatten") {
        Some(Intrinsic::StreamFlatten)
    } else if str_eq(name, "lin_stream_concat") {
        Some(Intrinsic::StreamConcat)
    } else if str_eq(name, "lin_stream_sliding") {
        Some(Intrinsic::StreamSliding)
    } else if str_eq(name, "lin_stream_pairwise") {
        Some(Intrinsic::StreamPairwise)
    } else if str_eq(name, "lin_stream_intersperse") {
        Some(Intrinsic::StreamIntersperse)
    } else if str_eq(name, "lin_stream_dedup") {
        Some(Intrinsic::StreamDedup)
    } else if str_eq(name, "lin_stream_zip_with") {
        Some(Intrinsic::StreamZipWith)
    } else if str_eq(name, "lin_stream_count") {
        Some(Intrinsic::StreamCount)
    } else if str_eq(name, "lin_stream_repeat") {
        Some(Intrinsic::StreamRepeat)
    } else if str_eq(name, "lin_stream_cycle") {
        Some(Intrinsic::StreamCycle)
    } else if str_eq(name, "lin_stream_gunzip") {
        Some(Intrinsic::StreamGunzip)
    } else if str_eq(name, "lin_stream_gzip") {
        Some(Intrinsic::StreamGzip)
    } else if str_eq(name, "lin_stream_inflate") {
        Some(Intrinsic::StreamInflate)
    } else if str_eq(name, "lin_stream_deflate") {
        Some(Intrinsic::StreamDeflate)
    } else if str_eq(name, "lin_stream_untar") {
        Some(Intrinsic::StreamUntar)
    } else if str_eq(name, "lin_stream_manifest") {
        Some(Intrinsic::StreamManifest)
    } else if str_eq(name, "lin_stream_files") {
        Some(Intrinsic::StreamFiles)
    } else if str_eq(name, "lin_stream_tar_entries") {
        Some(Intrinsic::StreamTarEntries)
    } else if str_eq(name, "lin_tar_header") {
        Some(Intrinsic::TarHeader)
    } else if str_eq(name, "lin_tar_body") {
        Some(Intrinsic::TarBody)
    } else if str_eq(name, "lin_stream_reduce") {
        Some(Intrinsic::StreamReduce)
    } else if str_eq(name, "lin_stream_find") {
        Some(Intrinsic::StreamFind)
    } else if str_eq(name, "lin_stream_some") {
        Some(Intrinsic::StreamSome)
    } else if str_eq(name, "lin_stream_every") {
        Some(Intrinsic::StreamEvery)
    } else if str_eq(name, "lin_stream_while") {
        Some(Intrinsic::StreamWhile)
    } else if str_eq(name, "lin_stream_lines") {
        Some(Intrinsic::StreamLines)
    } else if str_eq(name, "lin_stream_chunks") {
        Some(Intrinsic::StreamChunks)
    } else if str_eq(name, "lin_stream_write") {
        Some(Intrinsic::StreamWrite)
    } else if str_eq(name, "lin_stream_write_lines") {
        Some(Intrinsic::StreamWriteLines)
    } else if str_eq(name, "lin_stream_drain") {
        Some(Intrinsic::StreamDrain)
    } else if str_eq(name, "lin_stream_collect") {
        Some(Intrinsic::StreamCollect)
    } else if str_eq(name, "lin_stream_read_text") {
        Some(Intrinsic::StreamReadText)
    } else if str_eq(name, "lin_net_tcp_stream") {
        Some(Intrinsic::StreamTcp)
    } else if str_eq(name, "lin_process_stdout_stream") {
        Some(Intrinsic::StreamStdout)
    } else if str_eq(name, "lin_io_stdin_stream") {
        Some(Intrinsic::StreamStdin)
    } else if str_eq(name, "lin_stream_promise") {
        Some(Intrinsic::StreamPromise)
    } else {
        None
    }
}

/// How the name of an operation is lowered.
pub open spec fn builtin(name: Seq<char>) -> Builtin {
    match loop_builtin(name) {
        Some(b) => b,
        None => match general_op(name) {
            Some(i) => Builtin::Op(i),
            None => match stream_intrinsic(name) {
                Some(i) => Builtin::Op(i),
                None => Builtin::Unknown,
            },
        },
    }
}

/// How the operation named by a text is lowered.
#[verifier::inline]
pub open spec fn builtin_of_spec(name: &Text) -> Builtin {
    builtin(name.view())
}

/// How the operation of that name is lowered.
#[verifier::when_used_as_spec(builtin_of_spec)]
pub fn builtin_of(name: &Text) -> (r: Builtin)
    ensures
        r == builtin(name.view()),
{
    let n: String = name.render();
    match loop_builtin_of(n.as_str()) {
        Some(b) => b,
        None => match general_op_of(n.as_str()) {
            Some(i) => Builtin::Op(i),
            None => match stream_intrinsic_of(n.as_str()) {
                Some(i) => Builtin::Op(i),
                None => Builtin::Unknown,
            },
        },
    }
}

/// The symbol names that export.
#[verifier::inline]
pub open spec fn export_is_spec(sym: &String, name: &str) -> bool {
    export_of(sym@) == name@
}

/// The symbol names that export.
#[verifier::when_used_as_spec(export_is_spec)]
pub fn export_is(sym: &String, name: &str) -> (r: bool)
    ensures
        r == (export_of(sym@) == name@),
{
    let base: String = export_name(sym.as_str());
    str_eq(base.as_str(), name)
}

/// The symbol begins with `p`.
#[verifier::inline]
pub open spec fn sym_starts_spec(sym: &String, p: &str) -> bool {
    begins_with(sym@, p@)
}

/// The symbol begins with `p`.
#[verifier::when_used_as_spec(sym_starts_spec)]
pub fn sym_starts(sym: &String, p: &str) -> (r: bool)
    ensures
        r == (begins_with(sym@, p@)),
{
    starts_with(sym.as_str(), p)
}

/// The symbol names an export that makes an array of unboxed elements.
#[verifier::inline]
pub open spec fn makes_flat_array_export_spec(sym: &String) -> bool {
    flat_producer_export(export_of(sym@))
}

/// The symbol names an export that makes an array of unboxed elements.
#[verifier::when_used_as_spec(makes_flat_array_export_spec)]
pub fn makes_flat_array_export(sym: &String) -> (r: bool)
    ensures
        r == (flat_producer_export(export_of(sym@))),
{
    is_flat_producer_spec_name(sym.as_str())
}

/// The operation makes an array of unboxed elements.
#[verifier::inline]
pub open spec fn makes_flat_array_op_spec(name: &String) -> bool {
    flat_producer_op(name@)
}

/// The operation makes an array of unboxed elements.
#[verifier::when_used_as_spec(makes_flat_array_op_spec)]
pub fn makes_flat_array_op(name: &String) -> (r: bool)
    ensures
        r == (flat_producer_op(name@)),
{
    is_flat_producer_name(name.as_str())
}

/// The combinator that the symbol of an export names.
#[verifier::inline]
pub open spec fn export_combinator_spec(sym: &String, two_or_more: bool) -> Option<Combinator> {
    called_combinator(export_of(sym@), if two_or_more { 2 } else { 0 })
}

/// The combinator that the symbol of an export names.
#[verifier::when_used_as_spec(export_combinator_spec)]
pub fn export_combinator(sym: &String, two_or_more: bool) -> (r: Option<Combinator>)
    ensures
        r == (called_combinator(export_of(sym@), if two_or_more { 2 } else { 0 })),
{
    let base: String = export_name(sym.as_str());
    combinator_of_name(base.as_str(), two_or_more)
}

/// The combinator that an operation is.
#[verifier::inline]
pub open spec fn op_combinator_spec(name: &String, two_or_more: bool) -> Option<Combinator> {
    called_combinator(bare_op(name@), if two_or_more { 2 } else { 0 })
}

/// The combinator that an operation is.
#[verifier::when_used_as_spec(op_combinator_spec)]
pub fn op_combinator(name: &String, two_or_more: bool) -> (r: Option<Combinator>)
    ensures
        r == (called_combinator(bare_op(name@), if two_or_more { 2 } else { 0 })),
{
    let base: String = bare_op_name(name.as_str());
    combinator_of_name(base.as_str(), two_or_more)
}

/// The combinator that a symbol names, of those that take part in fusion by name.
#[verifier::inline]
pub open spec fn library_combinator_spec(sym: &String) -> Option<Combinator> {
    base_combinator(library_export(sym@))
}

/// The combinator that a symbol names, of those that take part in fusion by name.
#[verifier::when_used_as_spec(library_combinator_spec)]
pub fn library_combinator(sym: &String) -> (r: Option<Combinator>)
    ensures
        r == (base_combinator(library_export(sym@))),
{
    combinator_base_name(sym.as_str())
}

/// The stream operation that stands for an export of the iteration library.
pub open spec fn iter_stream_op_spec(sym: &String) -> Option<&'static str> {
    if begins_with(sym@, "std_iter_"@) {
        stream_op(sym@.skip("std_iter_"@.len() as int))
    } else {
        None
    }
}

/// The stream operation that stands for an export of the iteration library.
#[verifier::when_used_as_spec(iter_stream_op_spec)]
pub fn iter_stream_op(sym: &String) -> (r: Option<&'static str>)
    ensures
        r == iter_stream_op_spec(sym),
{
    match strip_prefix(sym.as_str(), "std_iter_") {
        Some(export) => stream_op_name(export.as_str()),
        None => None,
    }
}

} // verus!
