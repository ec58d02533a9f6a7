//! What one phase of declarations has of another.
use vstd::prelude::*;
use crate::codegen::llvm::{
    carries, declares, extends, lemma_carries_with, lemma_declared_again, lemma_extends_carries,
    lemma_extends_self, lemma_extends_with, DeclarationView,
};
use crate::codegen::runtime_decls::{
    abort_signals, array_storage, async_support, bootstrap, buffers, caches, calls, cloning,
    closures, collection_methods, core_collections, core_types, credentials, crypto, databases,
    date_fields, date_libraries, date_setters, decimals, documents, dynamic_operators,
    exceptions, file_system, global_roots, http, images, instances, language, loading, mongodb,
    object_storage, objects, parsing, phase1, phase2_1, phase_a_strings, phase_b_arrays,
    phase_b_objects, phase_b_strings, process, proxies, sockets, stack_context, stdlib_ffi,
    string_basics, string_matching, string_operations, symbols, timers, timing, typed_arrays,
    urls, utilities, validation, weak_collections, web_framework, web_responses, web_streams,
};
use crate::platform::Platform;

verus! {

/// What goes on from two lists in the same way keeps what one has of the other.
#[verifier::rlimit(60)]
proof fn lemma_stdlib_ffi_carries(
    b: Seq<DeclarationView>,
    a: Seq<DeclarationView>,
    first: Seq<DeclarationView>,
    host: Platform,
)
    requires
        carries(b, a, first),
    ensures
        carries(stdlib_ffi(b, host), stdlib_ffi(a, host), first),
{
    broadcast use lemma_carries_with;

    let a = http(a);
    let b = http(b);
    assert(carries(b, a, first));
    let a = databases(a);
    let b = databases(b);
    assert(carries(b, a, first));
    let a = mongodb(a);
    let b = mongodb(b);
    assert(carries(b, a, first));
    let a = credentials(a);
    let b = credentials(b);
    assert(carries(b, a, first));
    let a = images(a);
    let b = images(b);
    assert(carries(b, a, first));
    let a = buffers(a);
    let b = buffers(b);
    assert(carries(b, a, first));
    let a = documents(a);
    let b = documents(b);
    assert(carries(b, a, first));
    let a = urls(a);
    let b = urls(b);
    assert(carries(b, a, first));
    let a = sockets(a);
    let b = sockets(b);
    assert(carries(b, a, first));
    let a = crypto(a);
    let b = crypto(b);
    assert(carries(b, a, first));
    let a = date_libraries(a);
    let b = date_libraries(b);
    assert(carries(b, a, first));
    let a = decimals(a);
    let b = decimals(b);
    assert(carries(b, a, first));
    let a = utilities(a);
    let b = utilities(b);
    assert(carries(b, a, first));
    let a = caches(a);
    let b = caches(b);
    assert(carries(b, a, first));
    let a = web_framework(a);
    let b = web_framework(b);
    assert(carries(b, a, first));
    let a = validation(a);
    let b = validation(b);
    assert(carries(b, a, first));
    let a = language(a);
    let b = language(b);
    assert(carries(b, a, first));
    let a = calls(a);
    let b = calls(b);
    assert(carries(b, a, first));
    let a = loading(a);
    let b = loading(b);
    assert(carries(b, a, first));
}

/// The same, from objects on.
proof fn lemma_phase_b_objects_carries(
    b: Seq<DeclarationView>,
    a: Seq<DeclarationView>,
    first: Seq<DeclarationView>,
    host: Platform,
)
    requires
        carries(b, a, first),
    ensures
        carries(phase_b_objects(b, host), phase_b_objects(a, host), first),
{
    broadcast use lemma_carries_with;

    let a = object_storage(a);
    let b = object_storage(b);
    assert(carries(b, a, first));
    let a = proxies(a);
    let b = proxies(b);
    assert(carries(b, a, first));
    lemma_stdlib_ffi_carries(b, a, first, host);
}

/// The same, from arrays on.
proof fn lemma_phase_b_arrays_carries(
    b: Seq<DeclarationView>,
    a: Seq<DeclarationView>,
    first: Seq<DeclarationView>,
    host: Platform,
)
    requires
        carries(b, a, first),
    ensures
        carries(phase_b_arrays(b, host), phase_b_arrays(a, host), first),
{
    broadcast use lemma_carries_with;

    let a = array_storage(a);
    let b = array_storage(b);
    assert(carries(b, a, first));
    lemma_phase_b_objects_carries(b, a, first, host);
}

/// The same, from strings on.
#[verifier::rlimit(60)]
proof fn lemma_phase_b_strings_carries(
    b: Seq<DeclarationView>,
    a: Seq<DeclarationView>,
    first: Seq<DeclarationView>,
    host: Platform,
)
    requires
        carries(b, a, first),
    ensures
        carries(phase_b_strings(b, host), phase_b_strings(a, host), first),
{
    broadcast use lemma_carries_with;

    let a = string_operations(a);
    let b = string_operations(b);
    assert(carries(b, a, first));
    let a = closures(a);
    let b = closures(b);
    assert(carries(b, a, first));
    let a = core_collections(a);
    let b = core_collections(b);
    assert(carries(b, a, first));
    let a = file_system(a);
    let b = file_system(b);
    assert(carries(b, a, first));
    let a = string_basics(a);
    let b = string_basics(b);
    assert(carries(b, a, first));
    let a = process(a);
    let b = process(b);
    assert(carries(b, a, first));
    let a = instances(a);
    let b = instances(b);
    assert(carries(b, a, first));
    let a = date_fields(a);
    let b = date_fields(b);
    assert(carries(b, a, first));
    let a = collection_methods(a);
    let b = collection_methods(b);
    assert(carries(b, a, first));
    let a = dynamic_operators(a);
    let b = dynamic_operators(b);
    assert(carries(b, a, first));
    let a = weak_collections(a);
    let b = weak_collections(b);
    assert(carries(b, a, first));
    let a = parsing(a);
    let b = parsing(b);
    assert(carries(b, a, first));
    let a = date_setters(a);
    let b = date_setters(b);
    assert(carries(b, a, first));
    let a = typed_arrays(a);
    let b = typed_arrays(b);
    assert(carries(b, a, first));
    let a = symbols(a);
    let b = symbols(b);
    assert(carries(b, a, first));
    let a = string_matching(a);
    let b = string_matching(b);
    assert(carries(b, a, first));
    let a = cloning(a);
    let b = cloning(b);
    assert(carries(b, a, first));
    let a = async_support(a);
    let b = async_support(b);
    assert(carries(b, a, first));
    let a = exceptions(a);
    let b = exceptions(b);
    assert(carries(b, a, first));
    let a = stack_context(a, host);
    let b = stack_context(b, host);
    assert(carries(b, a, first));
    let a = timers(a);
    let b = timers(b);
    assert(carries(b, a, first));
    let a = web_responses(a);
    let b = web_responses(b);
    assert(carries(b, a, first));
    let a = web_streams(a);
    let b = web_streams(b);
    assert(carries(b, a, first));
    let a = abort_signals(a);
    let b = abort_signals(b);
    assert(carries(b, a, first));
    lemma_phase_b_arrays_carries(b, a, first, host);
}

/// The same, from string literals on.
proof fn lemma_phase_a_strings_carries(
    b: Seq<DeclarationView>,
    a: Seq<DeclarationView>,
    first: Seq<DeclarationView>,
    host: Platform,
)
    requires
        carries(b, a, first),
    ensures
        carries(phase_a_strings(b, host), phase_a_strings(a, host), first),
{
    broadcast use lemma_carries_with;

    let a = global_roots(a);
    let b = global_roots(b);
    assert(carries(b, a, first));
    lemma_phase_b_strings_carries(b, a, first, host);
}

/// The same, from timing on.
proof fn lemma_phase2_1_carries(
    b: Seq<DeclarationView>,
    a: Seq<DeclarationView>,
    first: Seq<DeclarationView>,
    host: Platform,
)
    requires
        carries(b, a, first),
    ensures
        carries(phase2_1(b, host), phase2_1(a, host), first),
{
    broadcast use lemma_carries_with;

    let a = timing(a);
    let b = timing(b);
    assert(carries(b, a, first));
    lemma_phase_a_strings_carries(b, a, first, host);
}

proof fn lemma_objects_extends(v: Seq<DeclarationView>)
    ensures
        extends(objects(v), v),
{
    broadcast use lemma_extends_with;

    lemma_extends_self(v);
    let w = v;
    let w = object_storage(w);
    assert(extends(w, v));
    let w = proxies(w);
    assert(extends(w, v));
}

proof fn lemma_array_storage_extends(v: Seq<DeclarationView>)
    ensures
        extends(array_storage(v), v),
{
    broadcast use lemma_extends_with;

    lemma_extends_self(v);
}

#[verifier::rlimit(60)]
proof fn lemma_core_types_extends(v: Seq<DeclarationView>, host: Platform)
    ensures
        extends(core_types(v, host), v),
{
    broadcast use lemma_extends_with;

    lemma_extends_self(v);
    let w = v;
    let w = string_operations(w);
    assert(extends(w, v));
    let w = closures(w);
    assert(extends(w, v));
    let w = core_collections(w);
    assert(extends(w, v));
    let w = file_system(w);
    assert(extends(w, v));
    let w = string_basics(w);
    assert(extends(w, v));
    let w = process(w);
    assert(extends(w, v));
    let w = instances(w);
    assert(extends(w, v));
    let w = date_fields(w);
    assert(extends(w, v));
    let w = collection_methods(w);
    assert(extends(w, v));
    let w = dynamic_operators(w);
    assert(extends(w, v));
    let w = weak_collections(w);
    assert(extends(w, v));
    let w = parsing(w);
    assert(extends(w, v));
    let w = date_setters(w);
    assert(extends(w, v));
    let w = typed_arrays(w);
    assert(extends(w, v));
    let w = symbols(w);
    assert(extends(w, v));
    let w = string_matching(w);
    assert(extends(w, v));
    let w = cloning(w);
    assert(extends(w, v));
    let w = async_support(w);
    assert(extends(w, v));
    let w = exceptions(w);
    assert(extends(w, v));
    let w = stack_context(w, host);
    assert(extends(w, v));
    let w = timers(w);
    assert(extends(w, v));
    let w = web_responses(w);
    assert(extends(w, v));
    let w = web_streams(w);
    assert(extends(w, v));
    let w = abort_signals(w);
    assert(extends(w, v));
}

proof fn lemma_global_roots_extends(v: Seq<DeclarationView>)
    ensures
        extends(global_roots(v), v),
{
    broadcast use lemma_extends_with;

    lemma_extends_self(v);
}

proof fn lemma_timing_extends(v: Seq<DeclarationView>)
    ensures
        extends(timing(v), v),
{
    broadcast use lemma_extends_with;

    lemma_extends_self(v);
}

proof fn lemma_bootstrap_extends(v: Seq<DeclarationView>)
    ensures
        extends(bootstrap(v), v),
{
    broadcast use lemma_extends_with;

    lemma_extends_self(v);
}

/// One call declares the whole registry. Each phase declares what the next one
/// declares, on the same module: every name, with the same signature but for names
/// that the phase declares first by itself, whose first declaration stands.
pub proof fn lemma_phases_nest(v: Seq<DeclarationView>, host: Platform)
    ensures
        carries(phase1(v, host), phase2_1(v, host), bootstrap(v)),
        carries(phase2_1(v, host), phase_a_strings(v, host), timing(v)),
        carries(phase_a_strings(v, host), phase_b_strings(v, host), global_roots(v)),
        carries(phase_b_strings(v, host), phase_b_arrays(v, host), core_types(v, host)),
        carries(phase_b_arrays(v, host), phase_b_objects(v, host), array_storage(v)),
        carries(phase_b_objects(v, host), stdlib_ffi(v, host), objects(v)),
{
    lemma_bootstrap_extends(v);
    lemma_extends_carries(bootstrap(v), v);
    lemma_phase2_1_carries(bootstrap(v), v, bootstrap(v), host);
    lemma_timing_extends(v);
    lemma_extends_carries(timing(v), v);
    lemma_phase_a_strings_carries(timing(v), v, timing(v), host);
    lemma_global_roots_extends(v);
    lemma_extends_carries(global_roots(v), v);
    lemma_phase_b_strings_carries(global_roots(v), v, global_roots(v), host);
    lemma_core_types_extends(v, host);
    lemma_extends_carries(core_types(v, host), v);
    lemma_phase_b_arrays_carries(core_types(v, host), v, core_types(v, host), host);
    lemma_array_storage_extends(v);
    lemma_extends_carries(array_storage(v), v);
    lemma_phase_b_objects_carries(array_storage(v), v, array_storage(v), host);
    lemma_objects_extends(v);
    lemma_extends_carries(objects(v), v);
    lemma_stdlib_ffi_carries(objects(v), v, objects(v), host);
}

/// What the first phase declares includes every name that any later phase
/// declares.
pub proof fn lemma_first_phase_declares_all(
    v: Seq<DeclarationView>,
    host: Platform,
    name: Seq<char>,
)
    requires
        ({
            ||| declares(phase2_1(v, host), name)
            ||| declares(phase_a_strings(v, host), name)
            ||| declares(phase_b_strings(v, host), name)
            ||| declares(phase_b_arrays(v, host), name)
            ||| declares(phase_b_objects(v, host), name)
            ||| declares(stdlib_ffi(v, host), name)
        }),
    ensures
        declares(phase1(v, host), name),
{
    lemma_phases_nest(v, host);
    lemma_carried(phase_b_objects(v, host), stdlib_ffi(v, host), objects(v), name);
    lemma_carried(phase_b_arrays(v, host), phase_b_objects(v, host), array_storage(v), name);
    lemma_carried(phase_b_strings(v, host), phase_b_arrays(v, host), core_types(v, host), name);
    lemma_carried(phase_a_strings(v, host), phase_b_strings(v, host), global_roots(v), name);
    lemma_carried(phase2_1(v, host), phase_a_strings(v, host), timing(v), name);
    lemma_carried(phase1(v, host), phase2_1(v, host), bootstrap(v), name);
}

proof fn lemma_carried(
    b: Seq<DeclarationView>,
    a: Seq<DeclarationView>,
    first: Seq<DeclarationView>,
    name: Seq<char>,
)
    requires
        carries(b, a, first),
    ensures
        declares(a, name) ==> declares(b, name),
{
    reveal(carries);
    if declares(a, name) {
        let i = choose|i: int| 0 <= i < a.len() && (#[trigger] a[i]).name == name;
        assert(declares(b, a[i].name));
    }
}

// ---- declaring again ----

proof fn lemma_stdlib_ffi_again(w: Seq<DeclarationView>, v: Seq<DeclarationView>, host: Platform)
    requires
        extends(w, stdlib_ffi(v, host)),
    ensures
        extends(w, v),
        stdlib_ffi(w, host) == w,
{
    broadcast use lemma_declared_again;

    let v1 = http(v);
    let v2 = databases(v1);
    let v3 = mongodb(v2);
    let v4 = credentials(v3);
    let v5 = images(v4);
    let v6 = buffers(v5);
    let v7 = documents(v6);
    let v8 = urls(v7);
    let v9 = sockets(v8);
    let v10 = crypto(v9);
    let v11 = date_libraries(v10);
    let v12 = decimals(v11);
    let v13 = utilities(v12);
    let v14 = caches(v13);
    let v15 = web_framework(v14);
    let v16 = validation(v15);
    let v17 = language(v16);
    let v18 = calls(v17);
    let v19 = loading(v18);
    assert(extends(w, v18) && loading(w) == w);
    assert(extends(w, v17) && calls(w) == w);
    assert(extends(w, v16) && language(w) == w);
    assert(extends(w, v15) && validation(w) == w);
    assert(extends(w, v14) && web_framework(w) == w);
    assert(extends(w, v13) && caches(w) == w);
    assert(extends(w, v12) && utilities(w) == w);
    assert(extends(w, v11) && decimals(w) == w);
    assert(extends(w, v10) && date_libraries(w) == w);
    assert(extends(w, v9) && crypto(w) == w);
    assert(extends(w, v8) && sockets(w) == w);
    assert(extends(w, v7) && urls(w) == w);
    assert(extends(w, v6) && documents(w) == w);
    assert(extends(w, v5) && buffers(w) == w);
    assert(extends(w, v4) && images(w) == w);
    assert(extends(w, v3) && credentials(w) == w);
    assert(extends(w, v2) && mongodb(w) == w);
    assert(extends(w, v1) && databases(w) == w);
    assert(extends(w, v) && http(w) == w);
}

proof fn lemma_phase_b_objects_again(w: Seq<DeclarationView>, v: Seq<DeclarationView>, host: Platform)
    requires
        extends(w, phase_b_objects(v, host)),
    ensures
        extends(w, v),
        phase_b_objects(w, host) == w,
{
    broadcast use lemma_declared_again;

    let v1 = object_storage(v);
    let v2 = proxies(v1);
    lemma_stdlib_ffi_again(w, v2, host);
    assert(extends(w, v1) && proxies(w) == w);
    assert(extends(w, v) && object_storage(w) == w);
}

proof fn lemma_phase_b_arrays_again(w: Seq<DeclarationView>, v: Seq<DeclarationView>, host: Platform)
    requires
        extends(w, phase_b_arrays(v, host)),
    ensures
        extends(w, v),
        phase_b_arrays(w, host) == w,
{
    broadcast use lemma_declared_again;

    let v1 = array_storage(v);
    lemma_phase_b_objects_again(w, v1, host);
    assert(extends(w, v) && array_storage(w) == w);
}

proof fn lemma_phase_b_strings_again(w: Seq<DeclarationView>, v: Seq<DeclarationView>, host: Platform)
    requires
        extends(w, phase_b_strings(v, host)),
    ensures
        extends(w, v),
        phase_b_strings(w, host) == w,
{
    broadcast use lemma_declared_again;

    let v1 = string_operations(v);
    let v2 = closures(v1);
    let v3 = core_collections(v2);
    let v4 = file_system(v3);
    let v5 = string_basics(v4);
    let v6 = process(v5);
    let v7 = instances(v6);
    let v8 = date_fields(v7);
    let v9 = collection_methods(v8);
    let v10 = dynamic_operators(v9);
    let v11 = weak_collections(v10);
    let v12 = parsing(v11);
    let v13 = date_setters(v12);
    let v14 = typed_arrays(v13);
    let v15 = symbols(v14);
    let v16 = string_matching(v15);
    let v17 = cloning(v16);
    let v18 = async_support(v17);
    let v19 = exceptions(v18);
    let v20 = stack_context(v19, host);
    let v21 = timers(v20);
    let v22 = web_responses(v21);
    let v23 = web_streams(v22);
    let v24 = abort_signals(v23);
    lemma_phase_b_arrays_again(w, v24, host);
    assert(extends(w, v23) && abort_signals(w) == w);
    assert(extends(w, v22) && web_streams(w) == w);
    assert(extends(w, v21) && web_responses(w) == w);
    assert(extends(w, v20) && timers(w) == w);
    assert(extends(w, v19) && stack_context(w, host) == w);
    assert(extends(w, v18) && exceptions(w) == w);
    assert(extends(w, v17) && async_support(w) == w);
    assert(extends(w, v16) && cloning(w) == w);
    assert(extends(w, v15) && string_matching(w) == w);
    assert(extends(w, v14) && symbols(w) == w);
    assert(extends(w, v13) && typed_arrays(w) == w);
    assert(extends(w, v12) && date_setters(w) == w);
    assert(extends(w, v11) && parsing(w) == w);
    assert(extends(w, v10) && weak_collections(w) == w);
    assert(extends(w, v9) && dynamic_operators(w) == w);
    assert(extends(w, v8) && collection_methods(w) == w);
    assert(extends(w, v7) && date_fields(w) == w);
    assert(extends(w, v6) && instances(w) == w);
    assert(extends(w, v5) && process(w) == w);
    assert(extends(w, v4) && string_basics(w) == w);
    assert(extends(w, v3) && file_system(w) == w);
    assert(extends(w, v2) && core_collections(w) == w);
    assert(extends(w, v1) && closures(w) == w);
    assert(extends(w, v) && string_operations(w) == w);
}

proof fn lemma_phase_a_strings_again(w: Seq<DeclarationView>, v: Seq<DeclarationView>, host: Platform)
    requires
        extends(w, phase_a_strings(v, host)),
    ensures
        extends(w, v),
        phase_a_strings(w, host) == w,
{
    broadcast use lemma_declared_again;

    let v1 = global_roots(v);
    lemma_phase_b_strings_again(w, v1, host);
    assert(extends(w, v) && global_roots(w) == w);
}

proof fn lemma_phase2_1_again(w: Seq<DeclarationView>, v: Seq<DeclarationView>, host: Platform)
    requires
        extends(w, phase2_1(v, host)),
    ensures
        extends(w, v),
        phase2_1(w, host) == w,
{
    broadcast use lemma_declared_again;

    let v1 = timing(v);
    lemma_phase_a_strings_again(w, v1, host);
    assert(extends(w, v) && timing(w) == w);
}

/// Declaring the registry a second time changes nothing.
pub proof fn lemma_phase1_again(v: Seq<DeclarationView>, host: Platform)
    ensures
        phase1(phase1(v, host), host) == phase1(v, host),
{
    broadcast use lemma_declared_again;

    let w = phase1(v, host);
    lemma_extends_self(w);
    lemma_phase2_1_again(w, bootstrap(v), host);
    assert(bootstrap(w) == w);
}

} // verus!
