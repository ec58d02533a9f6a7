//! The functions of the runtime library that generated code calls.
//!
//! Each phase declares what its stage of the language needs and then goes on to
//! the next; the signatures are those of the runtime library, argument for
//! argument.
use vstd::prelude::*;
use crate::codegen::llvm::{
    declared, with, DeclarationView, LlModule, DOUBLE, I1, I16, I32, I64, PTR, VOID,
};
use crate::platform::Platform;

verus! {

/// Runtime bootstrap, console output, NaN-boxing and string literals.
pub open spec fn bootstrap(v: Seq<DeclarationView>) -> Seq<DeclarationView> {
    let v = with(v, "js_gc_init", VOID, []@);
    let v = with(v, "js_stdlib_init_dispatch", VOID, []@);
    let v = with(v, "js_console_log_dynamic", VOID, [DOUBLE]@);
    let v = with(v, "js_console_log_number", VOID, [DOUBLE]@);
    let v = with(v, "js_nanbox_string", DOUBLE, [I64]@);
    let v = with(v, "js_nanbox_pointer", DOUBLE, [I64]@);
    let v = with(v, "js_nanbox_get_pointer", I64, [DOUBLE]@);
    let v = with(v, "js_string_from_bytes", I64, [PTR, I32]@);
    let v = with(v, "js_string_from_wtf8_bytes", I64, [PTR, I32]@);
    let v = with(v, "js_is_truthy", I32, [DOUBLE]@);
    v
}

fn declare_bootstrap(m: &mut LlModule)
    ensures
        declared(final(m).declarations@) == bootstrap(declared(old(m).declarations@)),
        old(m).wf() ==> final(m).wf(),
        final(m).host == old(m).host,
        final(m).functions == old(m).functions,
{
    m.declare_function("js_gc_init", VOID, &[]);
    m.declare_function("js_stdlib_init_dispatch", VOID, &[]);
    m.declare_function("js_console_log_dynamic", VOID, &[DOUBLE]);
    m.declare_function("js_console_log_number", VOID, &[DOUBLE]);
    m.declare_function("js_nanbox_string", DOUBLE, &[I64]);
    m.declare_function("js_nanbox_pointer", DOUBLE, &[I64]);
    m.declare_function("js_nanbox_get_pointer", I64, &[DOUBLE]);
    m.declare_function("js_string_from_bytes", I64, &[PTR, I32]);
    m.declare_function("js_string_from_wtf8_bytes", I64, &[PTR, I32]);
    m.declare_function("js_is_truthy", I32, &[DOUBLE]);
}

/// Timing.
pub open spec fn timing(v: Seq<DeclarationView>) -> Seq<DeclarationView> {
    let v = with(v, "js_date_now", DOUBLE, []@);
    v
}

fn declare_timing(m: &mut LlModule)
    ensures
        declared(final(m).declarations@) == timing(declared(old(m).declarations@)),
        old(m).wf() ==> final(m).wf(),
        final(m).host == old(m).host,
        final(m).functions == old(m).functions,
{
    m.declare_function("js_date_now", DOUBLE, &[]);
}

/// Registration of module globals as collector roots.
pub open spec fn global_roots(v: Seq<DeclarationView>) -> Seq<DeclarationView> {
    let v = with(v, "js_gc_register_global_root", VOID, [I64]@);
    v
}

fn declare_global_roots(m: &mut LlModule)
    ensures
        declared(final(m).declarations@) == global_roots(declared(old(m).declarations@)),
        old(m).wf() ==> final(m).wf(),
        final(m).host == old(m).host,
        final(m).functions == old(m).functions,
{
    m.declare_function("js_gc_register_global_root", VOID, &[I64]);
}

/// Concatenation, searching, intrinsics, and JSON and map creation.
pub open spec fn string_operations(v: Seq<DeclarationView>) -> Seq<DeclarationView> {
    let v = with(v, "js_string_concat", I64, [I64, I64]@);
    let v = with(v, "js_jsvalue_to_string", I64, [DOUBLE]@);
    let v = with(v, "js_string_concat_value", I64, [I64, DOUBLE]@);
    let v = with(v, "js_value_concat_string", I64, [DOUBLE, I64]@);
    let v = with(v, "js_string_append", I64, [I64, I64]@);
    let v = with(v, "js_string_index_of", I32, [I64, I64]@);
    let v = with(v, "js_string_index_of_from", I32, [I64, I64, I32]@);
    let v = with(v, "js_string_slice", I64, [I64, I32, I32]@);
    let v = with(v, "js_string_substring", I64, [I64, I32, I32]@);
    let v = with(v, "js_string_split", I64, [I64, I64]@);
    let v = with(v, "js_math_pow", DOUBLE, [DOUBLE, DOUBLE]@);
    let v = with(v, "llvm.sqrt.f64", DOUBLE, [DOUBLE]@);
    let v = with(v, "llvm.floor.f64", DOUBLE, [DOUBLE]@);
    let v = with(v, "llvm.ceil.f64", DOUBLE, [DOUBLE]@);
    let v = with(v, "llvm.fabs.f64", DOUBLE, [DOUBLE]@);
    let v = with(v, "llvm.copysign.f64", DOUBLE, [DOUBLE, DOUBLE]@);
    let v = with(v, "llvm.assume", VOID, [I1]@);
    let v = with(v, "llvm.bswap.i16", I16, [I16]@);
    let v = with(v, "llvm.bswap.i32", I32, [I32]@);
    let v = with(v, "llvm.bswap.i64", I64, [I64]@);
    let v = with(v, "js_json_stringify", I64, [DOUBLE, I32]@);
    let v = with(v, "js_map_alloc", I64, [I32]@);
    let v = with(v, "js_value_typeof", I64, [DOUBLE]@);
    let v = with(v, "js_string_starts_with", I32, [I64, I64]@);
    let v = with(v, "js_string_ends_with", I32, [I64, I64]@);
    v
}

fn declare_string_operations(m: &mut LlModule)
    ensures
        declared(final(m).declarations@) == string_operations(declared(old(m).declarations@)),
        old(m).wf() ==> final(m).wf(),
        final(m).host == old(m).host,
        final(m).functions == old(m).functions,
{
    m.declare_function("js_string_concat", I64, &[I64, I64]);
    m.declare_function("js_jsvalue_to_string", I64, &[DOUBLE]);
    m.declare_function("js_string_concat_value", I64, &[I64, DOUBLE]);
    m.declare_function("js_value_concat_string", I64, &[DOUBLE, I64]);
    m.declare_function("js_string_append", I64, &[I64, I64]);
    m.declare_function("js_string_index_of", I32, &[I64, I64]);
    m.declare_function("js_string_index_of_from", I32, &[I64, I64, I32]);
    m.declare_function("js_string_slice", I64, &[I64, I32, I32]);
    m.declare_function("js_string_substring", I64, &[I64, I32, I32]);
    m.declare_function("js_string_split", I64, &[I64, I64]);
    m.declare_function("js_math_pow", DOUBLE, &[DOUBLE, DOUBLE]);
    m.declare_function("llvm.sqrt.f64", DOUBLE, &[DOUBLE]);
    m.declare_function("llvm.floor.f64", DOUBLE, &[DOUBLE]);
    m.declare_function("llvm.ceil.f64", DOUBLE, &[DOUBLE]);
    m.declare_function("llvm.fabs.f64", DOUBLE, &[DOUBLE]);
    m.declare_function("llvm.copysign.f64", DOUBLE, &[DOUBLE, DOUBLE]);
    m.declare_function("llvm.assume", VOID, &[I1]);
    m.declare_function("llvm.bswap.i16", I16, &[I16]);
    m.declare_function("llvm.bswap.i32", I32, &[I32]);
    m.declare_function("llvm.bswap.i64", I64, &[I64]);
    m.declare_function("js_json_stringify", I64, &[DOUBLE, I32]);
    m.declare_function("js_map_alloc", I64, &[I32]);
    m.declare_function("js_value_typeof", I64, &[DOUBLE]);
    m.declare_function("js_string_starts_with", I32, &[I64, I64]);
    m.declare_function("js_string_ends_with", I32, &[I64, I64]);
}

/// Closures and their calls with up to sixteen arguments.
pub open spec fn closures(v: Seq<DeclarationView>) -> Seq<DeclarationView> {
    let v = with(v, "js_closure_alloc", I64, [PTR, I32]@);
    let v = with(v, "js_closure_set_capture_f64", VOID, [I64, I32, DOUBLE]@);
    let v = with(v, "js_closure_get_capture_f64", DOUBLE, [I64, I32]@);
    let v = with(v, "js_closure_call0", DOUBLE, [I64]@);
    let v = with(v, "js_closure_call1", DOUBLE, [I64, DOUBLE]@);
    let v = with(v, "js_closure_call2", DOUBLE, [I64, DOUBLE, DOUBLE]@);
    let v = with(v, "js_closure_call3", DOUBLE, [I64, DOUBLE, DOUBLE, DOUBLE]@);
    let v = with(v, "js_closure_call4", DOUBLE, [I64, DOUBLE, DOUBLE, DOUBLE, DOUBLE]@);
    let v = with(v, "js_closure_call5", DOUBLE, [I64, DOUBLE, DOUBLE, DOUBLE, DOUBLE, DOUBLE]@);
    let v = with(
        v,
        "js_closure_call6",
        DOUBLE,
        [I64, DOUBLE, DOUBLE, DOUBLE, DOUBLE, DOUBLE, DOUBLE]@,
    );
    let v = with(
        v,
        "js_closure_call7",
        DOUBLE,
        [I64, DOUBLE, DOUBLE, DOUBLE, DOUBLE, DOUBLE, DOUBLE, DOUBLE]@,
    );
    let v = with(
        v,
        "js_closure_call8",
        DOUBLE,
        [I64, DOUBLE, DOUBLE, DOUBLE, DOUBLE, DOUBLE, DOUBLE, DOUBLE, DOUBLE]@,
    );
    let v = with(
        v,
        "js_closure_call9",
        DOUBLE,
        [I64, DOUBLE, DOUBLE, DOUBLE, DOUBLE, DOUBLE, DOUBLE, DOUBLE, DOUBLE, DOUBLE]@,
    );
    let v = with(
        v,
        "js_closure_call10",
        DOUBLE,
        [I64, DOUBLE, DOUBLE, DOUBLE, DOUBLE, DOUBLE, DOUBLE, DOUBLE, DOUBLE, DOUBLE, DOUBLE]@,
    );
    let v = with(
        v,
        "js_closure_call11",
        DOUBLE,
        [
            I64, DOUBLE, DOUBLE, DOUBLE, DOUBLE, DOUBLE, DOUBLE, DOUBLE, DOUBLE, DOUBLE,
            DOUBLE, DOUBLE,
        ]@,
    );
    let v = with(
        v,
        "js_closure_call12",
        DOUBLE,
        [
            I64, DOUBLE, DOUBLE, DOUBLE, DOUBLE, DOUBLE, DOUBLE, DOUBLE, DOUBLE, DOUBLE,
            DOUBLE, DOUBLE, DOUBLE,
        ]@,
    );
    let v = with(
        v,
        "js_closure_call13",
        DOUBLE,
        [
            I64, DOUBLE, DOUBLE, DOUBLE, DOUBLE, DOUBLE, DOUBLE, DOUBLE, DOUBLE, DOUBLE,
            DOUBLE, DOUBLE, DOUBLE, DOUBLE,
        ]@,
    );
    let v = with(
        v,
        "js_closure_call14",
        DOUBLE,
        [
            I64, DOUBLE, DOUBLE, DOUBLE, DOUBLE, DOUBLE, DOUBLE, DOUBLE, DOUBLE, DOUBLE,
            DOUBLE, DOUBLE, DOUBLE, DOUBLE, DOUBLE,
        ]@,
    );
    let v = with(
        v,
        "js_closure_call15",
        DOUBLE,
        [
            I64, DOUBLE, DOUBLE, DOUBLE, DOUBLE, DOUBLE, DOUBLE, DOUBLE, DOUBLE, DOUBLE,
            DOUBLE, DOUBLE, DOUBLE, DOUBLE, DOUBLE, DOUBLE,
        ]@,
    );
    let v = with(
        v,
        "js_closure_call16",
        DOUBLE,
        [
            I64, DOUBLE, DOUBLE, DOUBLE, DOUBLE, DOUBLE, DOUBLE, DOUBLE, DOUBLE, DOUBLE,
            DOUBLE, DOUBLE, DOUBLE, DOUBLE, DOUBLE, DOUBLE, DOUBLE,
        ]@,
    );
    v
}

fn declare_closures(m: &mut LlModule)
    ensures
        declared(final(m).declarations@) == closures(declared(old(m).declarations@)),
        old(m).wf() ==> final(m).wf(),
        final(m).host == old(m).host,
        final(m).functions == old(m).functions,
{
    m.declare_function("js_closure_alloc", I64, &[PTR, I32]);
    m.declare_function("js_closure_set_capture_f64", VOID, &[I64, I32, DOUBLE]);
    m.declare_function("js_closure_get_capture_f64", DOUBLE, &[I64, I32]);
    m.declare_function("js_closure_call0", DOUBLE, &[I64]);
    m.declare_function("js_closure_call1", DOUBLE, &[I64, DOUBLE]);
    m.declare_function("js_closure_call2", DOUBLE, &[I64, DOUBLE, DOUBLE]);
    m.declare_function("js_closure_call3", DOUBLE, &[I64, DOUBLE, DOUBLE, DOUBLE]);
    m.declare_function("js_closure_call4", DOUBLE, &[I64, DOUBLE, DOUBLE, DOUBLE, DOUBLE]);
    m.declare_function(
        "js_closure_call5",
        DOUBLE,
        &[I64, DOUBLE, DOUBLE, DOUBLE, DOUBLE, DOUBLE],
    );
    m.declare_function(
        "js_closure_call6",
        DOUBLE,
        &[I64, DOUBLE, DOUBLE, DOUBLE, DOUBLE, DOUBLE, DOUBLE],
    );
    m.declare_function(
        "js_closure_call7",
        DOUBLE,
        &[I64, DOUBLE, DOUBLE, DOUBLE, DOUBLE, DOUBLE, DOUBLE, DOUBLE],
    );
    m.declare_function(
        "js_closure_call8",
        DOUBLE,
        &[I64, DOUBLE, DOUBLE, DOUBLE, DOUBLE, DOUBLE, DOUBLE, DOUBLE, DOUBLE],
    );
    m.declare_function(
        "js_closure_call9",
        DOUBLE,
        &[I64, DOUBLE, DOUBLE, DOUBLE, DOUBLE, DOUBLE, DOUBLE, DOUBLE, DOUBLE, DOUBLE],
    );
    m.declare_function(
        "js_closure_call10",
        DOUBLE,
        &[I64, DOUBLE, DOUBLE, DOUBLE, DOUBLE, DOUBLE, DOUBLE, DOUBLE, DOUBLE, DOUBLE, DOUBLE],
    );
    m.declare_function(
        "js_closure_call11",
        DOUBLE,
        &[
            I64, DOUBLE, DOUBLE, DOUBLE, DOUBLE, DOUBLE, DOUBLE, DOUBLE, DOUBLE, DOUBLE,
            DOUBLE, DOUBLE,
        ],
    );
    m.declare_function(
        "js_closure_call12",
        DOUBLE,
        &[
            I64, DOUBLE, DOUBLE, DOUBLE, DOUBLE, DOUBLE, DOUBLE, DOUBLE, DOUBLE, DOUBLE,
            DOUBLE, DOUBLE, DOUBLE,
        ],
    );
    m.declare_function(
        "js_closure_call13",
        DOUBLE,
        &[
            I64, DOUBLE, DOUBLE, DOUBLE, DOUBLE, DOUBLE, DOUBLE, DOUBLE, DOUBLE, DOUBLE,
            DOUBLE, DOUBLE, DOUBLE, DOUBLE,
        ],
    );
    m.declare_function(
        "js_closure_call14",
        DOUBLE,
        &[
            I64, DOUBLE, DOUBLE, DOUBLE, DOUBLE, DOUBLE, DOUBLE, DOUBLE, DOUBLE, DOUBLE,
            DOUBLE, DOUBLE, DOUBLE, DOUBLE, DOUBLE,
        ],
    );
    m.declare_function(
        "js_closure_call15",
        DOUBLE,
        &[
            I64, DOUBLE, DOUBLE, DOUBLE, DOUBLE, DOUBLE, DOUBLE, DOUBLE, DOUBLE, DOUBLE,
            DOUBLE, DOUBLE, DOUBLE, DOUBLE, DOUBLE, DOUBLE,
        ],
    );
    m.declare_function(
        "js_closure_call16",
        DOUBLE,
        &[
            I64, DOUBLE, DOUBLE, DOUBLE, DOUBLE, DOUBLE, DOUBLE, DOUBLE, DOUBLE, DOUBLE,
            DOUBLE, DOUBLE, DOUBLE, DOUBLE, DOUBLE, DOUBLE, DOUBLE,
        ],
    );
}

/// Arrays, maps, sets, errors and coercions.
pub open spec fn core_collections(v: Seq<DeclarationView>) -> Seq<DeclarationView> {
    let v = with(v, "js_array_map", I64, [I64, I64]@);
    let v = with(v, "js_array_filter", I64, [I64, I64]@);
    let v = with(v, "js_array_concat", I64, [I64, I64]@);
    let v = with(v, "js_error_new", I64, []@);
    let v = with(v, "js_error_new_with_message", I64, [I64]@);
    let v = with(v, "js_map_set", I64, [I64, DOUBLE, DOUBLE]@);
    let v = with(v, "js_map_get", DOUBLE, [I64, DOUBLE]@);
    let v = with(v, "js_map_has", I32, [I64, DOUBLE]@);
    let v = with(v, "js_map_delete", I32, [I64, DOUBLE]@);
    let v = with(v, "js_object_keys", I64, [I64]@);
    let v = with(v, "js_is_finite", DOUBLE, [DOUBLE]@);
    let v = with(v, "js_is_undefined_or_bare_nan", I32, [DOUBLE]@);
    let v = with(v, "js_math_min_array", DOUBLE, [I64]@);
    let v = with(v, "js_math_max_array", DOUBLE, [I64]@);
    let v = with(v, "js_string_coerce", I64, [DOUBLE]@);
    let v = with(v, "js_array_slice", I64, [I64, I32, I32]@);
    let v = with(v, "js_array_shift_f64", DOUBLE, [I64]@);
    let v = with(v, "js_set_alloc", I64, [I32]@);
    let v = with(v, "js_set_from_array", I64, [I64]@);
    let v = with(v, "js_map_from_array", I64, [I64]@);
    let v = with(v, "js_object_has_property", DOUBLE, [DOUBLE, DOUBLE]@);
    v
}

fn declare_core_collections(m: &mut LlModule)
    ensures
        declared(final(m).declarations@) == core_collections(declared(old(m).declarations@)),
        old(m).wf() ==> final(m).wf(),
        final(m).host == old(m).host,
        final(m).functions == old(m).functions,
{
    m.declare_function("js_array_map", I64, &[I64, I64]);
    m.declare_function("js_array_filter", I64, &[I64, I64]);
    m.declare_function("js_array_concat", I64, &[I64, I64]);
    m.declare_function("js_error_new", I64, &[]);
    m.declare_function("js_error_new_with_message", I64, &[I64]);
    m.declare_function("js_map_set", I64, &[I64, DOUBLE, DOUBLE]);
    m.declare_function("js_map_get", DOUBLE, &[I64, DOUBLE]);
    m.declare_function("js_map_has", I32, &[I64, DOUBLE]);
    m.declare_function("js_map_delete", I32, &[I64, DOUBLE]);
    m.declare_function("js_object_keys", I64, &[I64]);
    m.declare_function("js_is_finite", DOUBLE, &[DOUBLE]);
    m.declare_function("js_is_undefined_or_bare_nan", I32, &[DOUBLE]);
    m.declare_function("js_math_min_array", DOUBLE, &[I64]);
    m.declare_function("js_math_max_array", DOUBLE, &[I64]);
    m.declare_function("js_string_coerce", I64, &[DOUBLE]);
    m.declare_function("js_array_slice", I64, &[I64, I32, I32]);
    m.declare_function("js_array_shift_f64", DOUBLE, &[I64]);
    m.declare_function("js_set_alloc", I64, &[I32]);
    m.declare_function("js_set_from_array", I64, &[I64]);
    m.declare_function("js_map_from_array", I64, &[I64]);
    m.declare_function("js_object_has_property", DOUBLE, &[DOUBLE, DOUBLE]);
}

/// File system access.
pub open spec fn file_system(v: Seq<DeclarationView>) -> Seq<DeclarationView> {
    let v = with(v, "js_fs_write_file_sync", I32, [DOUBLE, DOUBLE]@);
    let v = with(v, "js_fs_append_file_sync", I32, [DOUBLE, DOUBLE]@);
    let v = with(v, "js_fs_exists_sync", I32, [DOUBLE]@);
    let v = with(v, "js_fs_read_file_sync", I64, [DOUBLE]@);
    let v = with(v, "js_fs_mkdir_sync", I32, [DOUBLE]@);
    let v = with(v, "js_fs_unlink_sync", I32, [DOUBLE]@);
    let v = with(v, "js_fs_readdir_sync", DOUBLE, [DOUBLE]@);
    let v = with(v, "js_fs_stat_sync", DOUBLE, [DOUBLE]@);
    let v = with(v, "js_fs_rename_sync", I32, [DOUBLE, DOUBLE]@);
    let v = with(v, "js_fs_copy_file_sync", I32, [DOUBLE, DOUBLE]@);
    let v = with(v, "js_fs_chmod_sync", I32, [DOUBLE, DOUBLE]@);
    let v = with(v, "js_fs_access_sync", I32, [DOUBLE]@);
    let v = with(v, "js_fs_access_sync_throw", DOUBLE, [DOUBLE]@);
    let v = with(v, "js_fs_realpath_sync", I64, [DOUBLE]@);
    let v = with(v, "js_fs_mkdtemp_sync", I64, [DOUBLE]@);
    let v = with(v, "js_fs_rmdir_sync", I32, [DOUBLE]@);
    let v = with(v, "js_fs_rm_recursive", I32, [DOUBLE]@);
    let v = with(v, "js_fs_create_write_stream", DOUBLE, [DOUBLE]@);
    let v = with(v, "js_fs_create_read_stream", DOUBLE, [DOUBLE]@);
    let v = with(v, "js_fs_read_file_callback", DOUBLE, [DOUBLE, DOUBLE, DOUBLE]@);
    let v = with(v, "js_fs_stats_is_file", DOUBLE, [DOUBLE]@);
    let v = with(v, "js_fs_stats_is_directory", DOUBLE, [DOUBLE]@);
    let v = with(v, "js_fs_read_file_binary", I64, [DOUBLE]@);
    v
}

fn declare_file_system(m: &mut LlModule)
    ensures
        declared(final(m).declarations@) == file_system(declared(old(m).declarations@)),
        old(m).wf() ==> final(m).wf(),
        final(m).host == old(m).host,
        final(m).functions == old(m).functions,
{
    m.declare_function("js_fs_write_file_sync", I32, &[DOUBLE, DOUBLE]);
    m.declare_function("js_fs_append_file_sync", I32, &[DOUBLE, DOUBLE]);
    m.declare_function("js_fs_exists_sync", I32, &[DOUBLE]);
    m.declare_function("js_fs_read_file_sync", I64, &[DOUBLE]);
    m.declare_function("js_fs_mkdir_sync", I32, &[DOUBLE]);
    m.declare_function("js_fs_unlink_sync", I32, &[DOUBLE]);
    m.declare_function("js_fs_readdir_sync", DOUBLE, &[DOUBLE]);
    m.declare_function("js_fs_stat_sync", DOUBLE, &[DOUBLE]);
    m.declare_function("js_fs_rename_sync", I32, &[DOUBLE, DOUBLE]);
    m.declare_function("js_fs_copy_file_sync", I32, &[DOUBLE, DOUBLE]);
    m.declare_function("js_fs_chmod_sync", I32, &[DOUBLE, DOUBLE]);
    m.declare_function("js_fs_access_sync", I32, &[DOUBLE]);
    m.declare_function("js_fs_access_sync_throw", DOUBLE, &[DOUBLE]);
    m.declare_function("js_fs_realpath_sync", I64, &[DOUBLE]);
    m.declare_function("js_fs_mkdtemp_sync", I64, &[DOUBLE]);
    m.declare_function("js_fs_rmdir_sync", I32, &[DOUBLE]);
    m.declare_function("js_fs_rm_recursive", I32, &[DOUBLE]);
    m.declare_function("js_fs_create_write_stream", DOUBLE, &[DOUBLE]);
    m.declare_function("js_fs_create_read_stream", DOUBLE, &[DOUBLE]);
    m.declare_function("js_fs_read_file_callback", DOUBLE, &[DOUBLE, DOUBLE, DOUBLE]);
    m.declare_function("js_fs_stats_is_file", DOUBLE, &[DOUBLE]);
    m.declare_function("js_fs_stats_is_directory", DOUBLE, &[DOUBLE]);
    m.declare_function("js_fs_read_file_binary", I64, &[DOUBLE]);
}

/// Number coercion, set membership, and common string methods.
pub open spec fn string_basics(v: Seq<DeclarationView>) -> Seq<DeclarationView> {
    let v = with(v, "js_number_coerce", DOUBLE, [DOUBLE]@);
    let v = with(v, "js_set_add", I64, [I64, DOUBLE]@);
    let v = with(v, "js_set_has", I32, [I64, DOUBLE]@);
    let v = with(v, "js_set_delete", I32, [I64, DOUBLE]@);
    let v = with(v, "js_set_size", I32, [I64]@);
    let v = with(v, "js_string_to_lower_case", I64, [I64]@);
    let v = with(v, "js_string_to_upper_case", I64, [I64]@);
    let v = with(v, "js_string_trim", I64, [I64]@);
    let v = with(v, "js_string_trim_start", I64, [I64]@);
    let v = with(v, "js_string_trim_end", I64, [I64]@);
    let v = with(v, "js_string_char_at", I64, [I64, I32]@);
    let v = with(v, "js_string_to_char_array", I64, [I64]@);
    let v = with(v, "js_string_repeat", I64, [I64, I32]@);
    let v = with(v, "js_string_replace_string", I64, [I64, I64, I64]@);
    let v = with(v, "js_string_replace_all_string", I64, [I64, I64, I64]@);
    let v = with(v, "js_string_equals", I32, [I64, I64]@);
    let v = with(v, "js_string_compare", I32, [I64, I64]@);
    let v = with(v, "js_jsvalue_to_string_radix", I64, [DOUBLE, I32]@);
    let v = with(v, "js_math_random", DOUBLE, []@);
    v
}

fn declare_string_basics(m: &mut LlModule)
    ensures
        declared(final(m).declarations@) == string_basics(declared(old(m).declarations@)),
        old(m).wf() ==> final(m).wf(),
        final(m).host == old(m).host,
        final(m).functions == old(m).functions,
{
    m.declare_function("js_number_coerce", DOUBLE, &[DOUBLE]);
    m.declare_function("js_set_add", I64, &[I64, DOUBLE]);
    m.declare_function("js_set_has", I32, &[I64, DOUBLE]);
    m.declare_function("js_set_delete", I32, &[I64, DOUBLE]);
    m.declare_function("js_set_size", I32, &[I64]);
    m.declare_function("js_string_to_lower_case", I64, &[I64]);
    m.declare_function("js_string_to_upper_case", I64, &[I64]);
    m.declare_function("js_string_trim", I64, &[I64]);
    m.declare_function("js_string_trim_start", I64, &[I64]);
    m.declare_function("js_string_trim_end", I64, &[I64]);
    m.declare_function("js_string_char_at", I64, &[I64, I32]);
    m.declare_function("js_string_to_char_array", I64, &[I64]);
    m.declare_function("js_string_repeat", I64, &[I64, I32]);
    m.declare_function("js_string_replace_string", I64, &[I64, I64, I64]);
    m.declare_function("js_string_replace_all_string", I64, &[I64, I64, I64]);
    m.declare_function("js_string_equals", I32, &[I64, I64]);
    m.declare_function("js_string_compare", I32, &[I64, I64]);
    m.declare_function("js_jsvalue_to_string_radix", I64, &[DOUBLE, I32]);
    m.declare_function("js_math_random", DOUBLE, &[]);
}

/// Console lines, the process and its operating system.
pub open spec fn process(v: Seq<DeclarationView>) -> Seq<DeclarationView> {
    let v = with(v, "js_console_log_spread", VOID, [I64]@);
    let v = with(v, "js_console_error_spread", VOID, [I64]@);
    let v = with(v, "js_console_warn_spread", VOID, [I64]@);
    let v = with(v, "js_getenv", I64, [I64]@);
    let v = with(v, "js_console_table", VOID, [DOUBLE]@);
    let v = with(v, "js_console_trace", VOID, [DOUBLE]@);
    let v = with(v, "js_process_cwd", I64, []@);
    let v = with(v, "js_process_argv", I64, []@);
    let v = with(v, "js_process_pid", DOUBLE, []@);
    let v = with(v, "js_process_ppid", DOUBLE, []@);
    let v = with(v, "js_process_uptime", DOUBLE, []@);
    let v = with(v, "js_process_version", I64, []@);
    let v = with(v, "js_process_versions", DOUBLE, []@);
    let v = with(v, "js_process_memory_usage", DOUBLE, []@);
    let v = with(v, "js_process_env", DOUBLE, []@);
    let v = with(v, "js_process_hrtime_bigint", DOUBLE, []@);
    let v = with(v, "js_process_chdir", VOID, [I64]@);
    let v = with(v, "js_process_kill", VOID, [DOUBLE, DOUBLE]@);
    let v = with(v, "js_process_exit", VOID, [DOUBLE]@);
    let v = with(v, "js_process_on", VOID, [I64, I64]@);
    let v = with(v, "js_process_next_tick", VOID, [I64]@);
    let v = with(v, "js_process_stdin", DOUBLE, []@);
    let v = with(v, "js_process_stdout", DOUBLE, []@);
    let v = with(v, "js_process_stderr", DOUBLE, []@);
    let v = with(v, "js_os_platform", I64, []@);
    let v = with(v, "js_os_arch", I64, []@);
    let v = with(v, "js_os_type", I64, []@);
    let v = with(v, "js_os_release", I64, []@);
    let v = with(v, "js_os_hostname", I64, []@);
    let v = with(v, "js_os_eol", I64, []@);
    v
}

fn declare_process(m: &mut LlModule)
    ensures
        declared(final(m).declarations@) == process(declared(old(m).declarations@)),
        old(m).wf() ==> final(m).wf(),
        final(m).host == old(m).host,
        final(m).functions == old(m).functions,
{
    m.declare_function("js_console_log_spread", VOID, &[I64]);
    m.declare_function("js_console_error_spread", VOID, &[I64]);
    m.declare_function("js_console_warn_spread", VOID, &[I64]);
    m.declare_function("js_getenv", I64, &[I64]);
    m.declare_function("js_console_table", VOID, &[DOUBLE]);
    m.declare_function("js_console_trace", VOID, &[DOUBLE]);
    m.declare_function("js_process_cwd", I64, &[]);
    m.declare_function("js_process_argv", I64, &[]);
    m.declare_function("js_process_pid", DOUBLE, &[]);
    m.declare_function("js_process_ppid", DOUBLE, &[]);
    m.declare_function("js_process_uptime", DOUBLE, &[]);
    m.declare_function("js_process_version", I64, &[]);
    m.declare_function("js_process_versions", DOUBLE, &[]);
    m.declare_function("js_process_memory_usage", DOUBLE, &[]);
    m.declare_function("js_process_env", DOUBLE, &[]);
    m.declare_function("js_process_hrtime_bigint", DOUBLE, &[]);
    m.declare_function("js_process_chdir", VOID, &[I64]);
    m.declare_function("js_process_kill", VOID, &[DOUBLE, DOUBLE]);
    m.declare_function("js_process_exit", VOID, &[DOUBLE]);
    m.declare_function("js_process_on", VOID, &[I64, I64]);
    m.declare_function("js_process_next_tick", VOID, &[I64]);
    m.declare_function("js_process_stdin", DOUBLE, &[]);
    m.declare_function("js_process_stdout", DOUBLE, &[]);
    m.declare_function("js_process_stderr", DOUBLE, &[]);
    m.declare_function("js_os_platform", I64, &[]);
    m.declare_function("js_os_arch", I64, &[]);
    m.declare_function("js_os_type", I64, &[]);
    m.declare_function("js_os_release", I64, &[]);
    m.declare_function("js_os_hostname", I64, &[]);
    m.declare_function("js_os_eol", I64, &[]);
}

/// Boxes, class instances, equality and element access.
pub open spec fn instances(v: Seq<DeclarationView>) -> Seq<DeclarationView> {
    let v = with(v, "js_box_alloc", I64, [DOUBLE]@);
    let v = with(v, "js_box_get", DOUBLE, [I64]@);
    let v = with(v, "js_box_set", VOID, [I64, DOUBLE]@);
    let v = with(v, "js_object_get_class_id", I32, [I64]@);
    let v = with(v, "js_object_alloc_with_parent", I64, [I32, I32, I32]@);
    let v = with(v, "js_object_alloc_class_with_keys", I64, [I32, I32, I32, PTR, I32]@);
    let v = with(v, "js_object_alloc_class_inline_keys", I64, [I32, I32, I32, I64]@);
    let v = with(v, "js_build_class_keys_array", I64, [I32, I32, PTR, I32]@);
    let v = with(v, "js_inline_arena_state", PTR, []@);
    let v = with(v, "js_inline_arena_slow_alloc", PTR, [PTR, I64, I64]@);
    let v = with(v, "js_object_delete_field", I32, [I64, I64]@);
    let v = with(v, "js_eq", I64, [I64, I64]@);
    let v = with(v, "js_loose_eq", I64, [I64, I64]@);
    let v = with(v, "js_number_to_fixed", I64, [DOUBLE, DOUBLE]@);
    let v = with(v, "js_string_replace_regex", I64, [I64, I64, I64]@);
    let v = with(v, "js_array_at", DOUBLE, [I64, DOUBLE]@);
    v
}

fn declare_instances(m: &mut LlModule)
    ensures
        declared(final(m).declarations@) == instances(declared(old(m).declarations@)),
        old(m).wf() ==> final(m).wf(),
        final(m).host == old(m).host,
        final(m).functions == old(m).functions,
{
    m.declare_function("js_box_alloc", I64, &[DOUBLE]);
    m.declare_function("js_box_get", DOUBLE, &[I64]);
    m.declare_function("js_box_set", VOID, &[I64, DOUBLE]);
    m.declare_function("js_object_get_class_id", I32, &[I64]);
    m.declare_function("js_object_alloc_with_parent", I64, &[I32, I32, I32]);
    m.declare_function("js_object_alloc_class_with_keys", I64, &[I32, I32, I32, PTR, I32]);
    m.declare_function("js_object_alloc_class_inline_keys", I64, &[I32, I32, I32, I64]);
    m.declare_function("js_build_class_keys_array", I64, &[I32, I32, PTR, I32]);
    m.declare_function("js_inline_arena_state", PTR, &[]);
    m.declare_function("js_inline_arena_slow_alloc", PTR, &[PTR, I64, I64]);
    m.declare_function("js_object_delete_field", I32, &[I64, I64]);
    m.declare_function("js_eq", I64, &[I64, I64]);
    m.declare_function("js_loose_eq", I64, &[I64, I64]);
    m.declare_function("js_number_to_fixed", I64, &[DOUBLE, DOUBLE]);
    m.declare_function("js_string_replace_regex", I64, &[I64, I64, I64]);
    m.declare_function("js_array_at", DOUBLE, &[I64, DOUBLE]);
}

/// Reading the fields of a date.
pub open spec fn date_fields(v: Seq<DeclarationView>) -> Seq<DeclarationView> {
    let v = with(v, "js_date_get_time", DOUBLE, [DOUBLE]@);
    let v = with(v, "js_date_get_full_year", DOUBLE, [DOUBLE]@);
    let v = with(v, "js_date_get_month", DOUBLE, [DOUBLE]@);
    let v = with(v, "js_date_get_date", DOUBLE, [DOUBLE]@);
    let v = with(v, "js_date_get_hours", DOUBLE, [DOUBLE]@);
    let v = with(v, "js_date_get_minutes", DOUBLE, [DOUBLE]@);
    let v = with(v, "js_date_get_seconds", DOUBLE, [DOUBLE]@);
    let v = with(v, "js_date_get_milliseconds", DOUBLE, [DOUBLE]@);
    let v = with(v, "js_date_get_utc_day", DOUBLE, [DOUBLE]@);
    let v = with(v, "js_date_get_utc_full_year", DOUBLE, [DOUBLE]@);
    let v = with(v, "js_date_get_utc_month", DOUBLE, [DOUBLE]@);
    let v = with(v, "js_date_get_utc_date", DOUBLE, [DOUBLE]@);
    let v = with(v, "js_date_get_utc_hours", DOUBLE, [DOUBLE]@);
    let v = with(v, "js_date_get_utc_minutes", DOUBLE, [DOUBLE]@);
    let v = with(v, "js_date_get_utc_seconds", DOUBLE, [DOUBLE]@);
    let v = with(v, "js_date_get_utc_milliseconds", DOUBLE, [DOUBLE]@);
    let v = with(v, "js_date_value_of", DOUBLE, [DOUBLE]@);
    let v = with(v, "js_date_get_timezone_offset", DOUBLE, [DOUBLE]@);
    let v = with(v, "js_date_to_iso_string", I64, [DOUBLE]@);
    let v = with(v, "js_date_new_from_timestamp", DOUBLE, [DOUBLE]@);
    let v = with(v, "js_date_new_from_value", DOUBLE, [DOUBLE]@);
    v
}

fn declare_date_fields(m: &mut LlModule)
    ensures
        declared(final(m).declarations@) == date_fields(declared(old(m).declarations@)),
        old(m).wf() ==> final(m).wf(),
        final(m).host == old(m).host,
        final(m).functions == old(m).functions,
{
    m.declare_function("js_date_get_time", DOUBLE, &[DOUBLE]);
    m.declare_function("js_date_get_full_year", DOUBLE, &[DOUBLE]);
    m.declare_function("js_date_get_month", DOUBLE, &[DOUBLE]);
    m.declare_function("js_date_get_date", DOUBLE, &[DOUBLE]);
    m.declare_function("js_date_get_hours", DOUBLE, &[DOUBLE]);
    m.declare_function("js_date_get_minutes", DOUBLE, &[DOUBLE]);
    m.declare_function("js_date_get_seconds", DOUBLE, &[DOUBLE]);
    m.declare_function("js_date_get_milliseconds", DOUBLE, &[DOUBLE]);
    m.declare_function("js_date_get_utc_day", DOUBLE, &[DOUBLE]);
    m.declare_function("js_date_get_utc_full_year", DOUBLE, &[DOUBLE]);
    m.declare_function("js_date_get_utc_month", DOUBLE, &[DOUBLE]);
    m.declare_function("js_date_get_utc_date", DOUBLE, &[DOUBLE]);
    m.declare_function("js_date_get_utc_hours", DOUBLE, &[DOUBLE]);
    m.declare_function("js_date_get_utc_minutes", DOUBLE, &[DOUBLE]);
    m.declare_function("js_date_get_utc_seconds", DOUBLE, &[DOUBLE]);
    m.declare_function("js_date_get_utc_milliseconds", DOUBLE, &[DOUBLE]);
    m.declare_function("js_date_value_of", DOUBLE, &[DOUBLE]);
    m.declare_function("js_date_get_timezone_offset", DOUBLE, &[DOUBLE]);
    m.declare_function("js_date_to_iso_string", I64, &[DOUBLE]);
    m.declare_function("js_date_new_from_timestamp", DOUBLE, &[DOUBLE]);
    m.declare_function("js_date_new_from_value", DOUBLE, &[DOUBLE]);
}

/// Methods of arrays, maps and sets.
pub open spec fn collection_methods(v: Seq<DeclarationView>) -> Seq<DeclarationView> {
    let v = with(v, "js_array_indexOf_f64", I32, [I64, DOUBLE]@);
    let v = with(v, "js_array_indexOf_jsvalue", I32, [I64, DOUBLE]@);
    let v = with(v, "js_array_includes_f64", I32, [I64, DOUBLE]@);
    let v = with(v, "js_array_includes_jsvalue", I32, [I64, DOUBLE]@);
    let v = with(v, "js_map_size", I32, [I64]@);
    let v = with(v, "js_map_clear", VOID, [I64]@);
    let v = with(v, "js_set_clear", VOID, [I64]@);
    let v = with(v, "js_map_entries", I64, [I64]@);
    let v = with(v, "js_map_keys", I64, [I64]@);
    let v = with(v, "js_map_values", I64, [I64]@);
    let v = with(v, "js_map_foreach", VOID, [I64, DOUBLE]@);
    let v = with(v, "js_set_foreach", VOID, [I64, DOUBLE]@);
    let v = with(v, "js_set_to_array", I64, [I64]@);
    let v = with(v, "js_array_splice", I64, [I64, I32, I32, PTR, I32, PTR]@);
    let v = with(v, "js_parse_int", DOUBLE, [I64, DOUBLE]@);
    let v = with(v, "js_parse_float", DOUBLE, [I64]@);
    let v = with(v, "js_array_reduce", DOUBLE, [I64, I64, I32, DOUBLE]@);
    let v = with(v, "js_array_reduce_right", DOUBLE, [I64, I64, I32, DOUBLE]@);
    let v = with(v, "js_array_sort_default", I64, [I64]@);
    let v = with(v, "js_array_reverse", I64, [I64]@);
    let v = with(v, "js_array_flat", I64, [I64]@);
    let v = with(v, "js_array_flatMap", I64, [I64, I64]@);
    let v = with(v, "js_array_sort_with_comparator", I64, [I64, I64]@);
    let v = with(v, "js_array_to_reversed", I64, [I64]@);
    let v = with(v, "js_array_to_sorted_default", I64, [I64]@);
    let v = with(v, "js_array_to_sorted_with_comparator", I64, [I64, I64]@);
    let v = with(v, "js_array_to_spliced", I64, [I64, DOUBLE, DOUBLE, PTR, I32]@);
    let v = with(v, "js_array_with", I64, [I64, DOUBLE, DOUBLE]@);
    let v = with(v, "js_array_copy_within", I64, [I64, DOUBLE, DOUBLE, I32, DOUBLE]@);
    v
}

fn declare_collection_methods(m: &mut LlModule)
    ensures
        declared(final(m).declarations@) == collection_methods(declared(old(m).declarations@)),
        old(m).wf() ==> final(m).wf(),
        final(m).host == old(m).host,
        final(m).functions == old(m).functions,
{
    m.declare_function("js_array_indexOf_f64", I32, &[I64, DOUBLE]);
    m.declare_function("js_array_indexOf_jsvalue", I32, &[I64, DOUBLE]);
    m.declare_function("js_array_includes_f64", I32, &[I64, DOUBLE]);
    m.declare_function("js_array_includes_jsvalue", I32, &[I64, DOUBLE]);
    m.declare_function("js_map_size", I32, &[I64]);
    m.declare_function("js_map_clear", VOID, &[I64]);
    m.declare_function("js_set_clear", VOID, &[I64]);
    m.declare_function("js_map_entries", I64, &[I64]);
    m.declare_function("js_map_keys", I64, &[I64]);
    m.declare_function("js_map_values", I64, &[I64]);
    m.declare_function("js_map_foreach", VOID, &[I64, DOUBLE]);
    m.declare_function("js_set_foreach", VOID, &[I64, DOUBLE]);
    m.declare_function("js_set_to_array", I64, &[I64]);
    m.declare_function("js_array_splice", I64, &[I64, I32, I32, PTR, I32, PTR]);
    m.declare_function("js_parse_int", DOUBLE, &[I64, DOUBLE]);
    m.declare_function("js_parse_float", DOUBLE, &[I64]);
    m.declare_function("js_array_reduce", DOUBLE, &[I64, I64, I32, DOUBLE]);
    m.declare_function("js_array_reduce_right", DOUBLE, &[I64, I64, I32, DOUBLE]);
    m.declare_function("js_array_sort_default", I64, &[I64]);
    m.declare_function("js_array_reverse", I64, &[I64]);
    m.declare_function("js_array_flat", I64, &[I64]);
    m.declare_function("js_array_flatMap", I64, &[I64, I64]);
    m.declare_function("js_array_sort_with_comparator", I64, &[I64, I64]);
    m.declare_function("js_array_to_reversed", I64, &[I64]);
    m.declare_function("js_array_to_sorted_default", I64, &[I64]);
    m.declare_function("js_array_to_sorted_with_comparator", I64, &[I64, I64]);
    m.declare_function("js_array_to_spliced", I64, &[I64, DOUBLE, DOUBLE, PTR, I32]);
    m.declare_function("js_array_with", I64, &[I64, DOUBLE, DOUBLE]);
    m.declare_function("js_array_copy_within", I64, &[I64, DOUBLE, DOUBLE, I32, DOUBLE]);
}

/// Regular expressions, big integers, dynamic operators and error classes.
pub open spec fn dynamic_operators(v: Seq<DeclarationView>) -> Seq<DeclarationView> {
    let v = with(v, "js_regexp_new", I64, [I64, I64]@);
    let v = with(v, "js_regexp_test", I32, [I64, I64]@);
    let v = with(v, "js_get_string_pointer_unified", I64, [DOUBLE]@);
    let v = with(v, "js_value_to_str_ptr_for_ffi", I64, [DOUBLE]@);
    let v = with(v, "js_bigint_from_string", I64, [PTR, I32]@);
    let v = with(v, "js_bigint_from_f64", I64, [DOUBLE]@);
    let v = with(v, "js_bigint_cmp", I32, [I64, I64]@);
    let v = with(v, "js_dynamic_add", DOUBLE, [DOUBLE, DOUBLE]@);
    let v = with(v, "js_dynamic_sub", DOUBLE, [DOUBLE, DOUBLE]@);
    let v = with(v, "js_dynamic_mul", DOUBLE, [DOUBLE, DOUBLE]@);
    let v = with(v, "js_dynamic_div", DOUBLE, [DOUBLE, DOUBLE]@);
    let v = with(v, "js_dynamic_mod", DOUBLE, [DOUBLE, DOUBLE]@);
    let v = with(v, "js_dynamic_bitand", DOUBLE, [DOUBLE, DOUBLE]@);
    let v = with(v, "js_dynamic_bitor", DOUBLE, [DOUBLE, DOUBLE]@);
    let v = with(v, "js_dynamic_bitxor", DOUBLE, [DOUBLE, DOUBLE]@);
    let v = with(v, "js_dynamic_shl", DOUBLE, [DOUBLE, DOUBLE]@);
    let v = with(v, "js_dynamic_shr", DOUBLE, [DOUBLE, DOUBLE]@);
    let v = with(v, "js_instanceof", DOUBLE, [DOUBLE, I32]@);
    let v = with(v, "js_register_class_extends_error", VOID, [I32]@);
    let v = with(v, "js_register_class_parent", VOID, [I32, I32]@);
    let v = with(v, "js_typeerror_new", I64, [I64]@);
    let v = with(v, "js_rangeerror_new", I64, [I64]@);
    let v = with(v, "js_syntaxerror_new", I64, [I64]@);
    let v = with(v, "js_referenceerror_new", I64, [I64]@);
    v
}

fn declare_dynamic_operators(m: &mut LlModule)
    ensures
        declared(final(m).declarations@) == dynamic_operators(declared(old(m).declarations@)),
        old(m).wf() ==> final(m).wf(),
        final(m).host == old(m).host,
        final(m).functions == old(m).functions,
{
    m.declare_function("js_regexp_new", I64, &[I64, I64]);
    m.declare_function("js_regexp_test", I32, &[I64, I64]);
    m.declare_function("js_get_string_pointer_unified", I64, &[DOUBLE]);
    m.declare_function("js_value_to_str_ptr_for_ffi", I64, &[DOUBLE]);
    m.declare_function("js_bigint_from_string", I64, &[PTR, I32]);
    m.declare_function("js_bigint_from_f64", I64, &[DOUBLE]);
    m.declare_function("js_bigint_cmp", I32, &[I64, I64]);
    m.declare_function("js_dynamic_add", DOUBLE, &[DOUBLE, DOUBLE]);
    m.declare_function("js_dynamic_sub", DOUBLE, &[DOUBLE, DOUBLE]);
    m.declare_function("js_dynamic_mul", DOUBLE, &[DOUBLE, DOUBLE]);
    m.declare_function("js_dynamic_div", DOUBLE, &[DOUBLE, DOUBLE]);
    m.declare_function("js_dynamic_mod", DOUBLE, &[DOUBLE, DOUBLE]);
    m.declare_function("js_dynamic_bitand", DOUBLE, &[DOUBLE, DOUBLE]);
    m.declare_function("js_dynamic_bitor", DOUBLE, &[DOUBLE, DOUBLE]);
    m.declare_function("js_dynamic_bitxor", DOUBLE, &[DOUBLE, DOUBLE]);
    m.declare_function("js_dynamic_shl", DOUBLE, &[DOUBLE, DOUBLE]);
    m.declare_function("js_dynamic_shr", DOUBLE, &[DOUBLE, DOUBLE]);
    m.declare_function("js_instanceof", DOUBLE, &[DOUBLE, I32]);
    m.declare_function("js_register_class_extends_error", VOID, &[I32]);
    m.declare_function("js_register_class_parent", VOID, &[I32, I32]);
    m.declare_function("js_typeerror_new", I64, &[I64]);
    m.declare_function("js_rangeerror_new", I64, &[I64]);
    m.declare_function("js_syntaxerror_new", I64, &[I64]);
    m.declare_function("js_referenceerror_new", I64, &[I64]);
}

/// Weak collections, buffers, and object and path helpers.
pub open spec fn weak_collections(v: Seq<DeclarationView>) -> Seq<DeclarationView> {
    let v = with(v, "js_weakmap_new", I64, []@);
    let v = with(v, "js_weakset_new", I64, []@);
    let v = with(v, "js_weakmap_set", DOUBLE, [DOUBLE, DOUBLE, DOUBLE]@);
    let v = with(v, "js_weakmap_get", DOUBLE, [DOUBLE, DOUBLE]@);
    let v = with(v, "js_weakmap_has", DOUBLE, [DOUBLE, DOUBLE]@);
    let v = with(v, "js_weakmap_delete", DOUBLE, [DOUBLE, DOUBLE]@);
    let v = with(v, "js_weakset_add", DOUBLE, [DOUBLE, DOUBLE]@);
    let v = with(v, "js_weakset_has", DOUBLE, [DOUBLE, DOUBLE]@);
    let v = with(v, "js_weakset_delete", DOUBLE, [DOUBLE, DOUBLE]@);
    let v = with(v, "js_weak_throw_primitive", DOUBLE, []@);
    let v = with(v, "js_buffer_from_string", I64, [I64, I32]@);
    let v = with(v, "js_encoding_tag_from_value", I32, [DOUBLE]@);
    let v = with(v, "js_value_to_string_with_encoding", I64, [DOUBLE, I32]@);
    let v = with(v, "js_fs_unlink_sync", I32, [DOUBLE]@);
    let v = with(v, "js_object_values", I64, [I64]@);
    let v = with(v, "js_object_entries", I64, [I64]@);
    let v = with(v, "js_path_join", I64, [I64, I64]@);
    let v = with(v, "js_path_dirname", I64, [I64]@);
    let v = with(v, "js_path_relative", I64, [I64, I64]@);
    let v = with(v, "js_object_from_entries", DOUBLE, [DOUBLE]@);
    let v = with(v, "js_string_match", I64, [I64, I64]@);
    v
}

fn declare_weak_collections(m: &mut LlModule)
    ensures
        declared(final(m).declarations@) == weak_collections(declared(old(m).declarations@)),
        old(m).wf() ==> final(m).wf(),
        final(m).host == old(m).host,
        final(m).functions == old(m).functions,
{
    m.declare_function("js_weakmap_new", I64, &[]);
    m.declare_function("js_weakset_new", I64, &[]);
    m.declare_function("js_weakmap_set", DOUBLE, &[DOUBLE, DOUBLE, DOUBLE]);
    m.declare_function("js_weakmap_get", DOUBLE, &[DOUBLE, DOUBLE]);
    m.declare_function("js_weakmap_has", DOUBLE, &[DOUBLE, DOUBLE]);
    m.declare_function("js_weakmap_delete", DOUBLE, &[DOUBLE, DOUBLE]);
    m.declare_function("js_weakset_add", DOUBLE, &[DOUBLE, DOUBLE]);
    m.declare_function("js_weakset_has", DOUBLE, &[DOUBLE, DOUBLE]);
    m.declare_function("js_weakset_delete", DOUBLE, &[DOUBLE, DOUBLE]);
    m.declare_function("js_weak_throw_primitive", DOUBLE, &[]);
    m.declare_function("js_buffer_from_string", I64, &[I64, I32]);
    m.declare_function("js_encoding_tag_from_value", I32, &[DOUBLE]);
    m.declare_function("js_value_to_string_with_encoding", I64, &[DOUBLE, I32]);
    m.declare_function("js_fs_unlink_sync", I32, &[DOUBLE]);
    m.declare_function("js_object_values", I64, &[I64]);
    m.declare_function("js_object_entries", I64, &[I64]);
    m.declare_function("js_path_join", I64, &[I64, I64]);
    m.declare_function("js_path_dirname", I64, &[I64]);
    m.declare_function("js_path_relative", I64, &[I64, I64]);
    m.declare_function("js_object_from_entries", DOUBLE, &[DOUBLE]);
    m.declare_function("js_string_match", I64, &[I64, I64]);
}

/// Elementary functions, paths, JSON parsing and number formats.
pub open spec fn parsing(v: Seq<DeclarationView>) -> Seq<DeclarationView> {
    let v = with(v, "llvm.log.f64", DOUBLE, [DOUBLE]@);
    let v = with(v, "llvm.log2.f64", DOUBLE, [DOUBLE]@);
    let v = with(v, "llvm.log10.f64", DOUBLE, [DOUBLE]@);
    let v = with(v, "llvm.exp.f64", DOUBLE, [DOUBLE]@);
    let v = with(v, "llvm.sin.f64", DOUBLE, [DOUBLE]@);
    let v = with(v, "llvm.cos.f64", DOUBLE, [DOUBLE]@);
    let v = with(v, "js_path_basename", I64, [I64]@);
    let v = with(v, "js_path_basename_ext", I64, [I64, I64]@);
    let v = with(v, "js_path_extname", I64, [I64]@);
    let v = with(v, "js_path_sep_get", I64, []@);
    let v = with(v, "js_path_delimiter_get", I64, []@);
    let v = with(v, "js_path_parse", I64, [I64]@);
    let v = with(v, "js_json_parse", I64, [I64]@);
    let v = with(v, "js_json_parse_typed_array", I64, [I64, I64, I32, I32]@);
    let v = with(v, "js_date_to_date_string", I64, [DOUBLE]@);
    let v = with(v, "js_date_to_time_string", I64, [DOUBLE]@);
    let v = with(v, "js_date_to_locale_date_string", I64, [DOUBLE]@);
    let v = with(v, "js_date_to_locale_time_string", I64, [DOUBLE]@);
    let v = with(v, "js_date_to_json", I64, [DOUBLE]@);
    let v = with(v, "js_regexp_exec", I64, [I64, I64]@);
    let v = with(v, "js_number_to_precision", I64, [DOUBLE, DOUBLE]@);
    let v = with(v, "js_number_to_exponential", I64, [DOUBLE, DOUBLE]@);
    let v = with(v, "js_date_new", DOUBLE, []@);
    let v = with(v, "js_number_is_integer", DOUBLE, [DOUBLE]@);
    let v = with(v, "js_number_is_nan", DOUBLE, [DOUBLE]@);
    let v = with(v, "js_number_is_safe_integer", DOUBLE, [DOUBLE]@);
    let v = with(v, "js_date_parse", DOUBLE, [I64]@);
    let v = with(
        v,
        "js_date_utc",
        DOUBLE,
        [DOUBLE, DOUBLE, DOUBLE, DOUBLE, DOUBLE, DOUBLE, DOUBLE]@,
    );
    v
}

fn declare_parsing(m: &mut LlModule)
    ensures
        declared(final(m).declarations@) == parsing(declared(old(m).declarations@)),
        old(m).wf() ==> final(m).wf(),
        final(m).host == old(m).host,
        final(m).functions == old(m).functions,
{
    m.declare_function("llvm.log.f64", DOUBLE, &[DOUBLE]);
    m.declare_function("llvm.log2.f64", DOUBLE, &[DOUBLE]);
    m.declare_function("llvm.log10.f64", DOUBLE, &[DOUBLE]);
    m.declare_function("llvm.exp.f64", DOUBLE, &[DOUBLE]);
    m.declare_function("llvm.sin.f64", DOUBLE, &[DOUBLE]);
    m.declare_function("llvm.cos.f64", DOUBLE, &[DOUBLE]);
    m.declare_function("js_path_basename", I64, &[I64]);
    m.declare_function("js_path_basename_ext", I64, &[I64, I64]);
    m.declare_function("js_path_extname", I64, &[I64]);
    m.declare_function("js_path_sep_get", I64, &[]);
    m.declare_function("js_path_delimiter_get", I64, &[]);
    m.declare_function("js_path_parse", I64, &[I64]);
    m.declare_function("js_json_parse", I64, &[I64]);
    m.declare_function("js_json_parse_typed_array", I64, &[I64, I64, I32, I32]);
    m.declare_function("js_date_to_date_string", I64, &[DOUBLE]);
    m.declare_function("js_date_to_time_string", I64, &[DOUBLE]);
    m.declare_function("js_date_to_locale_date_string", I64, &[DOUBLE]);
    m.declare_function("js_date_to_locale_time_string", I64, &[DOUBLE]);
    m.declare_function("js_date_to_json", I64, &[DOUBLE]);
    m.declare_function("js_regexp_exec", I64, &[I64, I64]);
    m.declare_function("js_number_to_precision", I64, &[DOUBLE, DOUBLE]);
    m.declare_function("js_number_to_exponential", I64, &[DOUBLE, DOUBLE]);
    m.declare_function("js_date_new", DOUBLE, &[]);
    m.declare_function("js_number_is_integer", DOUBLE, &[DOUBLE]);
    m.declare_function("js_number_is_nan", DOUBLE, &[DOUBLE]);
    m.declare_function("js_number_is_safe_integer", DOUBLE, &[DOUBLE]);
    m.declare_function("js_date_parse", DOUBLE, &[I64]);
    m.declare_function(
        "js_date_utc",
        DOUBLE,
        &[DOUBLE, DOUBLE, DOUBLE, DOUBLE, DOUBLE, DOUBLE, DOUBLE],
    );
}

/// Setting date fields, further elementary functions, URIs and text codecs.
pub open spec fn date_setters(v: Seq<DeclarationView>) -> Seq<DeclarationView> {
    let v = with(v, "js_date_set_utc_full_year", DOUBLE, [DOUBLE, DOUBLE]@);
    let v = with(v, "js_date_set_utc_month", DOUBLE, [DOUBLE, DOUBLE]@);
    let v = with(v, "js_date_set_utc_date", DOUBLE, [DOUBLE, DOUBLE]@);
    let v = with(v, "js_date_set_utc_hours", DOUBLE, [DOUBLE, DOUBLE]@);
    let v = with(v, "js_date_set_utc_minutes", DOUBLE, [DOUBLE, DOUBLE]@);
    let v = with(v, "js_date_set_utc_seconds", DOUBLE, [DOUBLE, DOUBLE]@);
    let v = with(v, "js_date_set_utc_milliseconds", DOUBLE, [DOUBLE, DOUBLE]@);
    let v = with(v, "js_math_clz32", DOUBLE, [DOUBLE]@);
    let v = with(v, "js_math_cbrt", DOUBLE, [DOUBLE]@);
    let v = with(v, "js_math_fround", DOUBLE, [DOUBLE]@);
    let v = with(v, "js_math_sinh", DOUBLE, [DOUBLE]@);
    let v = with(v, "js_math_cosh", DOUBLE, [DOUBLE]@);
    let v = with(v, "js_math_tanh", DOUBLE, [DOUBLE]@);
    let v = with(v, "js_math_asinh", DOUBLE, [DOUBLE]@);
    let v = with(v, "js_math_acosh", DOUBLE, [DOUBLE]@);
    let v = with(v, "js_math_atanh", DOUBLE, [DOUBLE]@);
    let v = with(v, "js_math_hypot", DOUBLE, [DOUBLE, DOUBLE]@);
    let v = with(v, "js_object_is", DOUBLE, [DOUBLE, DOUBLE]@);
    let v = with(v, "js_path_normalize", I64, [I64]@);
    let v = with(v, "js_path_format", I64, [DOUBLE]@);
    let v = with(v, "js_path_is_absolute", I32, [I64]@);
    let v = with(v, "js_encode_uri", I64, [DOUBLE]@);
    let v = with(v, "js_decode_uri", I64, [DOUBLE]@);
    let v = with(v, "js_encode_uri_component", I64, [DOUBLE]@);
    let v = with(v, "js_decode_uri_component", I64, [DOUBLE]@);
    let v = with(v, "js_text_encoder_new", I64, []@);
    let v = with(v, "js_text_decoder_new", I64, []@);
    let v = with(v, "js_text_encoder_encode_llvm", I64, [DOUBLE]@);
    let v = with(v, "js_text_decoder_decode_llvm", I64, [DOUBLE]@);
    let v = with(v, "js_queue_microtask", VOID, [I64]@);
    let v = with(v, "js_drain_queued_microtasks", VOID, []@);
    v
}

fn declare_date_setters(m: &mut LlModule)
    ensures
        declared(final(m).declarations@) == date_setters(declared(old(m).declarations@)),
        old(m).wf() ==> final(m).wf(),
        final(m).host == old(m).host,
        final(m).functions == old(m).functions,
{
    m.declare_function("js_date_set_utc_full_year", DOUBLE, &[DOUBLE, DOUBLE]);
    m.declare_function("js_date_set_utc_month", DOUBLE, &[DOUBLE, DOUBLE]);
    m.declare_function("js_date_set_utc_date", DOUBLE, &[DOUBLE, DOUBLE]);
    m.declare_function("js_date_set_utc_hours", DOUBLE, &[DOUBLE, DOUBLE]);
    m.declare_function("js_date_set_utc_minutes", DOUBLE, &[DOUBLE, DOUBLE]);
    m.declare_function("js_date_set_utc_seconds", DOUBLE, &[DOUBLE, DOUBLE]);
    m.declare_function("js_date_set_utc_milliseconds", DOUBLE, &[DOUBLE, DOUBLE]);
    m.declare_function("js_math_clz32", DOUBLE, &[DOUBLE]);
    m.declare_function("js_math_cbrt", DOUBLE, &[DOUBLE]);
    m.declare_function("js_math_fround", DOUBLE, &[DOUBLE]);
    m.declare_function("js_math_sinh", DOUBLE, &[DOUBLE]);
    m.declare_function("js_math_cosh", DOUBLE, &[DOUBLE]);
    m.declare_function("js_math_tanh", DOUBLE, &[DOUBLE]);
    m.declare_function("js_math_asinh", DOUBLE, &[DOUBLE]);
    m.declare_function("js_math_acosh", DOUBLE, &[DOUBLE]);
    m.declare_function("js_math_atanh", DOUBLE, &[DOUBLE]);
    m.declare_function("js_math_hypot", DOUBLE, &[DOUBLE, DOUBLE]);
    m.declare_function("js_object_is", DOUBLE, &[DOUBLE, DOUBLE]);
    m.declare_function("js_path_normalize", I64, &[I64]);
    m.declare_function("js_path_format", I64, &[DOUBLE]);
    m.declare_function("js_path_is_absolute", I32, &[I64]);
    m.declare_function("js_encode_uri", I64, &[DOUBLE]);
    m.declare_function("js_decode_uri", I64, &[DOUBLE]);
    m.declare_function("js_encode_uri_component", I64, &[DOUBLE]);
    m.declare_function("js_decode_uri_component", I64, &[DOUBLE]);
    m.declare_function("js_text_encoder_new", I64, &[]);
    m.declare_function("js_text_decoder_new", I64, &[]);
    m.declare_function("js_text_encoder_encode_llvm", I64, &[DOUBLE]);
    m.declare_function("js_text_decoder_decode_llvm", I64, &[DOUBLE]);
    m.declare_function("js_queue_microtask", VOID, &[I64]);
    m.declare_function("js_drain_queued_microtasks", VOID, &[]);
}

/// Typed arrays.
pub open spec fn typed_arrays(v: Seq<DeclarationView>) -> Seq<DeclarationView> {
    let v = with(v, "js_uint8array_from_array", I64, [I64]@);
    let v = with(v, "js_uint8array_new", I64, [DOUBLE]@);
    let v = with(v, "js_typed_array_new_empty", I64, [I32, I32]@);
    let v = with(v, "js_typed_array_new_from_array", I64, [I32, I64]@);
    let v = with(v, "js_typed_array_new", I64, [I32, DOUBLE]@);
    let v = with(v, "js_typed_array_length", I32, [I64]@);
    let v = with(v, "js_typed_array_get", DOUBLE, [I64, I32]@);
    let v = with(v, "js_typed_array_at", DOUBLE, [I64, DOUBLE]@);
    let v = with(v, "js_typed_array_set", VOID, [I64, I32, DOUBLE]@);
    let v = with(v, "js_typed_array_to_reversed", I64, [I64]@);
    let v = with(v, "js_typed_array_to_sorted_default", I64, [I64]@);
    let v = with(v, "js_typed_array_to_sorted_with_comparator", I64, [I64, I64]@);
    let v = with(v, "js_typed_array_with", I64, [I64, DOUBLE, DOUBLE]@);
    let v = with(v, "js_typed_array_find_last", DOUBLE, [I64, I64]@);
    let v = with(v, "js_typed_array_find_last_index", DOUBLE, [I64, I64]@);
    v
}

fn declare_typed_arrays(m: &mut LlModule)
    ensures
        declared(final(m).declarations@) == typed_arrays(declared(old(m).declarations@)),
        old(m).wf() ==> final(m).wf(),
        final(m).host == old(m).host,
        final(m).functions == old(m).functions,
{
    m.declare_function("js_uint8array_from_array", I64, &[I64]);
    m.declare_function("js_uint8array_new", I64, &[DOUBLE]);
    m.declare_function("js_typed_array_new_empty", I64, &[I32, I32]);
    m.declare_function("js_typed_array_new_from_array", I64, &[I32, I64]);
    m.declare_function("js_typed_array_new", I64, &[I32, DOUBLE]);
    m.declare_function("js_typed_array_length", I32, &[I64]);
    m.declare_function("js_typed_array_get", DOUBLE, &[I64, I32]);
    m.declare_function("js_typed_array_at", DOUBLE, &[I64, DOUBLE]);
    m.declare_function("js_typed_array_set", VOID, &[I64, I32, DOUBLE]);
    m.declare_function("js_typed_array_to_reversed", I64, &[I64]);
    m.declare_function("js_typed_array_to_sorted_default", I64, &[I64]);
    m.declare_function("js_typed_array_to_sorted_with_comparator", I64, &[I64, I64]);
    m.declare_function("js_typed_array_with", I64, &[I64, DOUBLE, DOUBLE]);
    m.declare_function("js_typed_array_find_last", DOUBLE, &[I64, I64]);
    m.declare_function("js_typed_array_find_last_index", DOUBLE, &[I64, I64]);
}

/// Property descriptors, symbols and object integrity.
pub open spec fn symbols(v: Seq<DeclarationView>) -> Seq<DeclarationView> {
    let v = with(v, "js_object_has_own", DOUBLE, [DOUBLE, DOUBLE]@);
    let v = with(v, "js_object_define_property", DOUBLE, [DOUBLE, DOUBLE, DOUBLE]@);
    let v = with(v, "js_object_get_own_property_descriptor", DOUBLE, [DOUBLE, DOUBLE]@);
    let v = with(v, "js_object_get_own_property_names", DOUBLE, [DOUBLE]@);
    let v = with(v, "js_symbol_new", DOUBLE, [DOUBLE]@);
    let v = with(v, "js_symbol_new_empty", DOUBLE, []@);
    let v = with(v, "js_symbol_for", DOUBLE, [DOUBLE]@);
    let v = with(v, "js_symbol_key_for", DOUBLE, [DOUBLE]@);
    let v = with(v, "js_symbol_description", DOUBLE, [DOUBLE]@);
    let v = with(v, "js_symbol_to_string", I64, [DOUBLE]@);
    let v = with(v, "js_symbol_equals", I32, [DOUBLE, DOUBLE]@);
    let v = with(v, "js_is_symbol", I32, [DOUBLE]@);
    let v = with(v, "js_object_get_own_property_symbols", I64, [DOUBLE]@);
    let v = with(v, "js_object_set_symbol_property", DOUBLE, [DOUBLE, DOUBLE, DOUBLE]@);
    let v = with(v, "js_object_get_symbol_property", DOUBLE, [DOUBLE, DOUBLE]@);
    let v = with(v, "js_object_create", DOUBLE, [DOUBLE]@);
    let v = with(v, "js_object_freeze", DOUBLE, [DOUBLE]@);
    let v = with(v, "js_object_seal", DOUBLE, [DOUBLE]@);
    let v = with(v, "js_object_prevent_extensions", DOUBLE, [DOUBLE]@);
    let v = with(v, "js_object_copy_own_fields", VOID, [I64, DOUBLE]@);
    v
}

fn declare_symbols(m: &mut LlModule)
    ensures
        declared(final(m).declarations@) == symbols(declared(old(m).declarations@)),
        old(m).wf() ==> final(m).wf(),
        final(m).host == old(m).host,
        final(m).functions == old(m).functions,
{
    m.declare_function("js_object_has_own", DOUBLE, &[DOUBLE, DOUBLE]);
    m.declare_function("js_object_define_property", DOUBLE, &[DOUBLE, DOUBLE, DOUBLE]);
    m.declare_function("js_object_get_own_property_descriptor", DOUBLE, &[DOUBLE, DOUBLE]);
    m.declare_function("js_object_get_own_property_names", DOUBLE, &[DOUBLE]);
    m.declare_function("js_symbol_new", DOUBLE, &[DOUBLE]);
    m.declare_function("js_symbol_new_empty", DOUBLE, &[]);
    m.declare_function("js_symbol_for", DOUBLE, &[DOUBLE]);
    m.declare_function("js_symbol_key_for", DOUBLE, &[DOUBLE]);
    m.declare_function("js_symbol_description", DOUBLE, &[DOUBLE]);
    m.declare_function("js_symbol_to_string", I64, &[DOUBLE]);
    m.declare_function("js_symbol_equals", I32, &[DOUBLE, DOUBLE]);
    m.declare_function("js_is_symbol", I32, &[DOUBLE]);
    m.declare_function("js_object_get_own_property_symbols", I64, &[DOUBLE]);
    m.declare_function("js_object_set_symbol_property", DOUBLE, &[DOUBLE, DOUBLE, DOUBLE]);
    m.declare_function("js_object_get_symbol_property", DOUBLE, &[DOUBLE, DOUBLE]);
    m.declare_function("js_object_create", DOUBLE, &[DOUBLE]);
    m.declare_function("js_object_freeze", DOUBLE, &[DOUBLE]);
    m.declare_function("js_object_seal", DOUBLE, &[DOUBLE]);
    m.declare_function("js_object_prevent_extensions", DOUBLE, &[DOUBLE]);
    m.declare_function("js_object_copy_own_fields", VOID, &[I64, DOUBLE]);
}

/// Code points, padding and matching.
pub open spec fn string_matching(v: Seq<DeclarationView>) -> Seq<DeclarationView> {
    let v = with(v, "js_string_at", DOUBLE, [I64, I32]@);
    let v = with(v, "js_string_code_point_at", DOUBLE, [I64, I32]@);
    let v = with(v, "js_string_from_code_point", I64, [I32]@);
    let v = with(v, "js_string_from_char_code", I64, [I32]@);
    let v = with(v, "js_string_char_code_at", DOUBLE, [I64, I32]@);
    let v = with(v, "js_string_last_index_of", I32, [I64, I64]@);
    let v = with(v, "js_string_locale_compare", DOUBLE, [I64, I64]@);
    let v = with(v, "js_string_normalize", I64, [I64, I64]@);
    let v = with(v, "js_string_pad_start", I64, [I64, I32, I64]@);
    let v = with(v, "js_string_pad_end", I64, [I64, I32, I64]@);
    let v = with(v, "js_string_is_well_formed", DOUBLE, [I64]@);
    let v = with(v, "js_string_to_well_formed", I64, [I64]@);
    let v = with(v, "js_string_match_all", I64, [I64, I64]@);
    let v = with(v, "js_string_search_regex", I32, [I64, I64]@);
    let v = with(v, "js_regexp_exec_get_index", DOUBLE, []@);
    let v = with(v, "js_regexp_exec_get_groups", I64, []@);
    let v = with(v, "js_regexp_get_last_index", DOUBLE, [I64]@);
    let v = with(v, "js_regexp_set_last_index", VOID, [I64, DOUBLE]@);
    let v = with(v, "js_regexp_get_source", I64, [I64]@);
    let v = with(v, "js_regexp_get_flags", I64, [I64]@);
    let v = with(v, "js_string_replace_regex_named", I64, [I64, I64, I64]@);
    let v = with(v, "js_string_replace_regex_fn", I64, [I64, I64, DOUBLE]@);
    v
}

fn declare_string_matching(m: &mut LlModule)
    ensures
        declared(final(m).declarations@) == string_matching(declared(old(m).declarations@)),
        old(m).wf() ==> final(m).wf(),
        final(m).host == old(m).host,
        final(m).functions == old(m).functions,
{
    m.declare_function("js_string_at", DOUBLE, &[I64, I32]);
    m.declare_function("js_string_code_point_at", DOUBLE, &[I64, I32]);
    m.declare_function("js_string_from_code_point", I64, &[I32]);
    m.declare_function("js_string_from_char_code", I64, &[I32]);
    m.declare_function("js_string_char_code_at", DOUBLE, &[I64, I32]);
    m.declare_function("js_string_last_index_of", I32, &[I64, I64]);
    m.declare_function("js_string_locale_compare", DOUBLE, &[I64, I64]);
    m.declare_function("js_string_normalize", I64, &[I64, I64]);
    m.declare_function("js_string_pad_start", I64, &[I64, I32, I64]);
    m.declare_function("js_string_pad_end", I64, &[I64, I32, I64]);
    m.declare_function("js_string_is_well_formed", DOUBLE, &[I64]);
    m.declare_function("js_string_to_well_formed", I64, &[I64]);
    m.declare_function("js_string_match_all", I64, &[I64, I64]);
    m.declare_function("js_string_search_regex", I32, &[I64, I64]);
    m.declare_function("js_regexp_exec_get_index", DOUBLE, &[]);
    m.declare_function("js_regexp_exec_get_groups", I64, &[]);
    m.declare_function("js_regexp_get_last_index", DOUBLE, &[I64]);
    m.declare_function("js_regexp_set_last_index", VOID, &[I64, DOUBLE]);
    m.declare_function("js_regexp_get_source", I64, &[I64]);
    m.declare_function("js_regexp_get_flags", I64, &[I64]);
    m.declare_function("js_string_replace_regex_named", I64, &[I64, I64, I64]);
    m.declare_function("js_string_replace_regex_fn", I64, &[I64, I64, DOUBLE]);
}

/// Cloning, weak references, digests and array searches.
pub open spec fn cloning(v: Seq<DeclarationView>) -> Seq<DeclarationView> {
    let v = with(v, "js_structured_clone", DOUBLE, [DOUBLE]@);
    let v = with(v, "js_weakref_new", I64, [DOUBLE]@);
    let v = with(v, "js_weakref_deref", DOUBLE, [DOUBLE]@);
    let v = with(v, "js_finreg_new", I64, [DOUBLE]@);
    let v = with(v, "js_finreg_register", DOUBLE, [DOUBLE, DOUBLE, DOUBLE, DOUBLE]@);
    let v = with(v, "js_finreg_unregister", DOUBLE, [DOUBLE, DOUBLE]@);
    let v = with(v, "js_atob", I64, [DOUBLE]@);
    let v = with(v, "js_btoa", I64, [DOUBLE]@);
    let v = with(v, "js_object_is_frozen", DOUBLE, [DOUBLE]@);
    let v = with(v, "js_object_is_sealed", DOUBLE, [DOUBLE]@);
    let v = with(v, "js_object_is_extensible", DOUBLE, [DOUBLE]@);
    let v = with(v, "js_aggregateerror_new", I64, [I64, I64]@);
    let v = with(v, "js_error_new_with_cause", I64, [I64, DOUBLE]@);
    let v = with(v, "js_error_get_errors", I64, [I64]@);
    let v = with(v, "js_crypto_sha256", I64, [I64]@);
    let v = with(v, "js_crypto_sha256_bytes", I64, [I64]@);
    let v = with(v, "js_crypto_md5", I64, [I64]@);
    let v = with(v, "js_crypto_hmac_sha256", I64, [I64, I64]@);
    let v = with(v, "js_crypto_hmac_sha256_bytes", I64, [I64, I64]@);
    let v = with(v, "js_crypto_pbkdf2_bytes", I64, [I64, I64, DOUBLE, DOUBLE]@);
    let v = with(v, "js_crypto_random_bytes_buffer", I64, [DOUBLE]@);
    let v = with(v, "js_crypto_random_uuid", I64, []@);
    let v = with(v, "js_crypto_create_hash", DOUBLE, [I64]@);
    let v = with(v, "js_string_from_bytes", I64, [I64, I32]@);
    let v = with(v, "js_string_from_wtf8_bytes", I64, [I64, I32]@);
    let v = with(v, "js_buffer_alloc", I64, [I32, I32]@);
    let v = with(v, "js_json_stringify_full", I64, [DOUBLE, DOUBLE, DOUBLE]@);
    let v = with(v, "js_json_parse_with_reviver", I64, [I64, I64]@);
    let v = with(v, "js_array_find", DOUBLE, [I64, I64]@);
    let v = with(v, "js_array_findIndex", I32, [I64, I64]@);
    let v = with(v, "js_array_find_last", DOUBLE, [I64, I64]@);
    let v = with(v, "js_array_find_last_index", I32, [I64, I64]@);
    let v = with(v, "js_array_some", DOUBLE, [I64, I64]@);
    let v = with(v, "js_array_every", DOUBLE, [I64, I64]@);
    v
}

fn declare_cloning(m: &mut LlModule)
    ensures
        declared(final(m).declarations@) == cloning(declared(old(m).declarations@)),
        old(m).wf() ==> final(m).wf(),
        final(m).host == old(m).host,
        final(m).functions == old(m).functions,
{
    m.declare_function("js_structured_clone", DOUBLE, &[DOUBLE]);
    m.declare_function("js_weakref_new", I64, &[DOUBLE]);
    m.declare_function("js_weakref_deref", DOUBLE, &[DOUBLE]);
    m.declare_function("js_finreg_new", I64, &[DOUBLE]);
    m.declare_function("js_finreg_register", DOUBLE, &[DOUBLE, DOUBLE, DOUBLE, DOUBLE]);
    m.declare_function("js_finreg_unregister", DOUBLE, &[DOUBLE, DOUBLE]);
    m.declare_function("js_atob", I64, &[DOUBLE]);
    m.declare_function("js_btoa", I64, &[DOUBLE]);
    m.declare_function("js_object_is_frozen", DOUBLE, &[DOUBLE]);
    m.declare_function("js_object_is_sealed", DOUBLE, &[DOUBLE]);
    m.declare_function("js_object_is_extensible", DOUBLE, &[DOUBLE]);
    m.declare_function("js_aggregateerror_new", I64, &[I64, I64]);
    m.declare_function("js_error_new_with_cause", I64, &[I64, DOUBLE]);
    m.declare_function("js_error_get_errors", I64, &[I64]);
    m.declare_function("js_crypto_sha256", I64, &[I64]);
    m.declare_function("js_crypto_sha256_bytes", I64, &[I64]);
    m.declare_function("js_crypto_md5", I64, &[I64]);
    m.declare_function("js_crypto_hmac_sha256", I64, &[I64, I64]);
    m.declare_function("js_crypto_hmac_sha256_bytes", I64, &[I64, I64]);
    m.declare_function("js_crypto_pbkdf2_bytes", I64, &[I64, I64, DOUBLE, DOUBLE]);
    m.declare_function("js_crypto_random_bytes_buffer", I64, &[DOUBLE]);
    m.declare_function("js_crypto_random_uuid", I64, &[]);
    m.declare_function("js_crypto_create_hash", DOUBLE, &[I64]);
    m.declare_function("js_string_from_bytes", I64, &[I64, I32]);
    m.declare_function("js_string_from_wtf8_bytes", I64, &[I64, I32]);
    m.declare_function("js_buffer_alloc", I64, &[I32, I32]);
    m.declare_function("js_json_stringify_full", I64, &[DOUBLE, DOUBLE, DOUBLE]);
    m.declare_function("js_json_parse_with_reviver", I64, &[I64, I64]);
    m.declare_function("js_array_find", DOUBLE, &[I64, I64]);
    m.declare_function("js_array_findIndex", I32, &[I64, I64]);
    m.declare_function("js_array_find_last", DOUBLE, &[I64, I64]);
    m.declare_function("js_array_find_last_index", I32, &[I64, I64]);
    m.declare_function("js_array_some", DOUBLE, &[I64, I64]);
    m.declare_function("js_array_every", DOUBLE, &[I64, I64]);
}

/// Promises as seen by `async` functions.
pub open spec fn async_support(v: Seq<DeclarationView>) -> Seq<DeclarationView> {
    let v = with(v, "js_promise_state", I32, [I64]@);
    let v = with(v, "js_promise_value", DOUBLE, [I64]@);
    let v = with(v, "js_promise_reason", DOUBLE, [I64]@);
    let v = with(v, "js_value_is_promise", I32, [DOUBLE]@);
    let v = with(v, "js_promise_run_microtasks", I32, []@);
    let v = with(v, "js_run_stdlib_pump", VOID, []@);
    let v = with(v, "js_sleep_ms", VOID, [DOUBLE]@);
    let v = with(v, "js_wait_for_event", VOID, []@);
    let v = with(v, "js_throw", VOID, [DOUBLE]@);
    v
}

fn declare_async_support(m: &mut LlModule)
    ensures
        declared(final(m).declarations@) == async_support(declared(old(m).declarations@)),
        old(m).wf() ==> final(m).wf(),
        final(m).host == old(m).host,
        final(m).functions == old(m).functions,
{
    m.declare_function("js_promise_state", I32, &[I64]);
    m.declare_function("js_promise_value", DOUBLE, &[I64]);
    m.declare_function("js_promise_reason", DOUBLE, &[I64]);
    m.declare_function("js_value_is_promise", I32, &[DOUBLE]);
    m.declare_function("js_promise_run_microtasks", I32, &[]);
    m.declare_function("js_run_stdlib_pump", VOID, &[]);
    m.declare_function("js_sleep_ms", VOID, &[DOUBLE]);
    m.declare_function("js_wait_for_event", VOID, &[]);
    m.declare_function("js_throw", VOID, &[DOUBLE]);
}

/// Exceptions: entering a `try`.
pub open spec fn exceptions(v: Seq<DeclarationView>) -> Seq<DeclarationView> {
    let v = with(v, "js_try_push", PTR, []@);
    v
}

fn declare_exceptions(m: &mut LlModule)
    ensures
        declared(final(m).declarations@) == exceptions(declared(old(m).declarations@)),
        old(m).wf() ==> final(m).wf(),
        final(m).host == old(m).host,
        final(m).functions == old(m).functions,
{
    m.declare_function("js_try_push", PTR, &[]);
}

/// Exceptions, timers, promises and array iteration.
pub open spec fn timers(v: Seq<DeclarationView>) -> Seq<DeclarationView> {
    let v = with(v, "js_try_end", VOID, []@);
    let v = with(v, "js_get_exception", DOUBLE, []@);
    let v = with(v, "js_clear_exception", VOID, []@);
    let v = with(v, "js_has_exception", I32, []@);
    let v = with(v, "js_enter_finally", VOID, []@);
    let v = with(v, "js_leave_finally", VOID, []@);
    let v = with(v, "js_await_any_promise", DOUBLE, [DOUBLE]@);
    let v = with(v, "js_promise_new", I64, []@);
    let v = with(v, "js_promise_new_with_executor", I64, [I64]@);
    let v = with(v, "js_timer_tick", I32, []@);
    let v = with(v, "js_callback_timer_tick", I32, []@);
    let v = with(v, "js_interval_timer_tick", I32, []@);
    let v = with(v, "js_timer_has_pending", I32, []@);
    let v = with(v, "js_callback_timer_has_pending", I32, []@);
    let v = with(v, "js_interval_timer_has_pending", I32, []@);
    let v = with(v, "js_stdlib_has_active_handles", I32, []@);
    let v = with(v, "js_set_timeout_callback", I64, [I64, DOUBLE]@);
    let v = with(v, "setInterval", I64, [I64, DOUBLE]@);
    let v = with(v, "clearTimeout", VOID, [I64]@);
    let v = with(v, "clearInterval", VOID, [I64]@);
    let v = with(v, "js_buffer_from_array", I64, [I64]@);
    let v = with(v, "js_buffer_length", I32, [I64]@);
    let v = with(v, "js_buffer_get", I32, [I64, I32]@);
    let v = with(v, "js_console_time", VOID, [I64]@);
    let v = with(v, "js_console_time_end", VOID, [I64]@);
    let v = with(v, "js_console_time_log", VOID, [I64]@);
    let v = with(v, "js_console_count", VOID, [I64]@);
    let v = with(v, "js_console_count_reset", VOID, [I64]@);
    let v = with(v, "js_console_group_begin", VOID, []@);
    let v = with(v, "js_console_group_end", VOID, []@);
    let v = with(v, "js_console_clear", VOID, []@);
    let v = with(v, "js_native_call_method", DOUBLE, [DOUBLE, PTR, I64, PTR, I64]@);
    let v = with(v, "js_promise_resolve", VOID, [I64, DOUBLE]@);
    let v = with(v, "js_promise_reject", VOID, [I64, DOUBLE]@);
    let v = with(v, "js_promise_resolved", I64, [DOUBLE]@);
    let v = with(v, "js_promise_rejected", I64, [DOUBLE]@);
    let v = with(v, "js_promise_then", I64, [I64, I64, I64]@);
    let v = with(v, "js_promise_finally", I64, [I64, I64]@);
    let v = with(v, "js_promise_all", I64, [I64]@);
    let v = with(v, "js_promise_race", I64, [I64]@);
    let v = with(v, "js_promise_any", I64, [I64]@);
    let v = with(v, "js_promise_all_settled", I64, [I64]@);
    let v = with(v, "js_promise_with_resolvers", I64, []@);
    let v = with(v, "js_array_unshift_f64", I64, [I64, DOUBLE]@);
    let v = with(v, "js_array_entries", I64, [I64]@);
    let v = with(v, "js_array_keys", I64, [I64]@);
    let v = with(v, "js_array_values", I64, [I64]@);
    v
}

fn declare_timers(m: &mut LlModule)
    ensures
        declared(final(m).declarations@) == timers(declared(old(m).declarations@)),
        old(m).wf() ==> final(m).wf(),
        final(m).host == old(m).host,
        final(m).functions == old(m).functions,
{
    m.declare_function("js_try_end", VOID, &[]);
    m.declare_function("js_get_exception", DOUBLE, &[]);
    m.declare_function("js_clear_exception", VOID, &[]);
    m.declare_function("js_has_exception", I32, &[]);
    m.declare_function("js_enter_finally", VOID, &[]);
    m.declare_function("js_leave_finally", VOID, &[]);
    m.declare_function("js_await_any_promise", DOUBLE, &[DOUBLE]);
    m.declare_function("js_promise_new", I64, &[]);
    m.declare_function("js_promise_new_with_executor", I64, &[I64]);
    m.declare_function("js_timer_tick", I32, &[]);
    m.declare_function("js_callback_timer_tick", I32, &[]);
    m.declare_function("js_interval_timer_tick", I32, &[]);
    m.declare_function("js_timer_has_pending", I32, &[]);
    m.declare_function("js_callback_timer_has_pending", I32, &[]);
    m.declare_function("js_interval_timer_has_pending", I32, &[]);
    m.declare_function("js_stdlib_has_active_handles", I32, &[]);
    m.declare_function("js_set_timeout_callback", I64, &[I64, DOUBLE]);
    m.declare_function("setInterval", I64, &[I64, DOUBLE]);
    m.declare_function("clearTimeout", VOID, &[I64]);
    m.declare_function("clearInterval", VOID, &[I64]);
    m.declare_function("js_buffer_from_array", I64, &[I64]);
    m.declare_function("js_buffer_length", I32, &[I64]);
    m.declare_function("js_buffer_get", I32, &[I64, I32]);
    m.declare_function("js_console_time", VOID, &[I64]);
    m.declare_function("js_console_time_end", VOID, &[I64]);
    m.declare_function("js_console_time_log", VOID, &[I64]);
    m.declare_function("js_console_count", VOID, &[I64]);
    m.declare_function("js_console_count_reset", VOID, &[I64]);
    m.declare_function("js_console_group_begin", VOID, &[]);
    m.declare_function("js_console_group_end", VOID, &[]);
    m.declare_function("js_console_clear", VOID, &[]);
    m.declare_function("js_native_call_method", DOUBLE, &[DOUBLE, PTR, I64, PTR, I64]);
    m.declare_function("js_promise_resolve", VOID, &[I64, DOUBLE]);
    m.declare_function("js_promise_reject", VOID, &[I64, DOUBLE]);
    m.declare_function("js_promise_resolved", I64, &[DOUBLE]);
    m.declare_function("js_promise_rejected", I64, &[DOUBLE]);
    m.declare_function("js_promise_then", I64, &[I64, I64, I64]);
    m.declare_function("js_promise_finally", I64, &[I64, I64]);
    m.declare_function("js_promise_all", I64, &[I64]);
    m.declare_function("js_promise_race", I64, &[I64]);
    m.declare_function("js_promise_any", I64, &[I64]);
    m.declare_function("js_promise_all_settled", I64, &[I64]);
    m.declare_function("js_promise_with_resolvers", I64, &[]);
    m.declare_function("js_array_unshift_f64", I64, &[I64, DOUBLE]);
    m.declare_function("js_array_entries", I64, &[I64]);
    m.declare_function("js_array_keys", I64, &[I64]);
    m.declare_function("js_array_values", I64, &[I64]);
}

/// Headers, requests and responses.
pub open spec fn web_responses(v: Seq<DeclarationView>) -> Seq<DeclarationView> {
    let v = with(v, "js_response_new", DOUBLE, [I64, DOUBLE, I64, DOUBLE]@);
    let v = with(v, "js_headers_new", DOUBLE, []@);
    let v = with(v, "js_headers_set", DOUBLE, [DOUBLE, I64, I64]@);
    let v = with(v, "js_headers_get", I64, [DOUBLE, I64]@);
    let v = with(v, "js_headers_has", DOUBLE, [DOUBLE, I64]@);
    let v = with(v, "js_headers_delete", DOUBLE, [DOUBLE, I64]@);
    let v = with(v, "js_headers_for_each", DOUBLE, [DOUBLE, DOUBLE]@);
    let v = with(v, "js_request_new", DOUBLE, [I64, I64, I64, DOUBLE]@);
    let v = with(v, "js_request_get_url", I64, [DOUBLE]@);
    let v = with(v, "js_request_get_method", I64, [DOUBLE]@);
    let v = with(v, "js_request_get_body", DOUBLE, [DOUBLE]@);
    let v = with(v, "js_fetch_response_status", DOUBLE, [I64]@);
    let v = with(v, "js_fetch_response_status_text", I64, [I64]@);
    let v = with(v, "js_fetch_response_ok", DOUBLE, [I64]@);
    let v = with(v, "js_fetch_response_text", I64, [I64]@);
    let v = with(v, "js_fetch_response_json", I64, [I64]@);
    let v = with(v, "js_response_get_headers", DOUBLE, [DOUBLE]@);
    let v = with(v, "js_response_clone", DOUBLE, [DOUBLE]@);
    let v = with(v, "js_response_array_buffer", I64, [DOUBLE]@);
    let v = with(v, "js_response_blob", I64, [DOUBLE]@);
    let v = with(v, "js_blob_size", DOUBLE, [DOUBLE]@);
    let v = with(v, "js_blob_type", I64, [DOUBLE]@);
    let v = with(v, "js_blob_array_buffer", I64, [DOUBLE]@);
    let v = with(v, "js_blob_bytes", I64, [DOUBLE]@);
    let v = with(v, "js_blob_text", I64, [DOUBLE]@);
    let v = with(v, "js_blob_slice", DOUBLE, [DOUBLE, DOUBLE, DOUBLE, I64]@);
    let v = with(v, "js_response_static_json", DOUBLE, [DOUBLE]@);
    let v = with(v, "js_response_static_redirect", DOUBLE, [I64, DOUBLE]@);
    v
}

fn declare_web_responses(m: &mut LlModule)
    ensures
        declared(final(m).declarations@) == web_responses(declared(old(m).declarations@)),
        old(m).wf() ==> final(m).wf(),
        final(m).host == old(m).host,
        final(m).functions == old(m).functions,
{
    m.declare_function("js_response_new", DOUBLE, &[I64, DOUBLE, I64, DOUBLE]);
    m.declare_function("js_headers_new", DOUBLE, &[]);
    m.declare_function("js_headers_set", DOUBLE, &[DOUBLE, I64, I64]);
    m.declare_function("js_headers_get", I64, &[DOUBLE, I64]);
    m.declare_function("js_headers_has", DOUBLE, &[DOUBLE, I64]);
    m.declare_function("js_headers_delete", DOUBLE, &[DOUBLE, I64]);
    m.declare_function("js_headers_for_each", DOUBLE, &[DOUBLE, DOUBLE]);
    m.declare_function("js_request_new", DOUBLE, &[I64, I64, I64, DOUBLE]);
    m.declare_function("js_request_get_url", I64, &[DOUBLE]);
    m.declare_function("js_request_get_method", I64, &[DOUBLE]);
    m.declare_function("js_request_get_body", DOUBLE, &[DOUBLE]);
    m.declare_function("js_fetch_response_status", DOUBLE, &[I64]);
    m.declare_function("js_fetch_response_status_text", I64, &[I64]);
    m.declare_function("js_fetch_response_ok", DOUBLE, &[I64]);
    m.declare_function("js_fetch_response_text", I64, &[I64]);
    m.declare_function("js_fetch_response_json", I64, &[I64]);
    m.declare_function("js_response_get_headers", DOUBLE, &[DOUBLE]);
    m.declare_function("js_response_clone", DOUBLE, &[DOUBLE]);
    m.declare_function("js_response_array_buffer", I64, &[DOUBLE]);
    m.declare_function("js_response_blob", I64, &[DOUBLE]);
    m.declare_function("js_blob_size", DOUBLE, &[DOUBLE]);
    m.declare_function("js_blob_type", I64, &[DOUBLE]);
    m.declare_function("js_blob_array_buffer", I64, &[DOUBLE]);
    m.declare_function("js_blob_bytes", I64, &[DOUBLE]);
    m.declare_function("js_blob_text", I64, &[DOUBLE]);
    m.declare_function("js_blob_slice", DOUBLE, &[DOUBLE, DOUBLE, DOUBLE, I64]);
    m.declare_function("js_response_static_json", DOUBLE, &[DOUBLE]);
    m.declare_function("js_response_static_redirect", DOUBLE, &[I64, DOUBLE]);
}

/// Blobs and streams.
pub open spec fn web_streams(v: Seq<DeclarationView>) -> Seq<DeclarationView> {
    let v = with(v, "js_blob_stream", DOUBLE, [DOUBLE]@);
    let v = with(v, "js_response_body", DOUBLE, [DOUBLE]@);
    let v = with(v, "js_readable_stream_new", DOUBLE, [DOUBLE, DOUBLE, DOUBLE, DOUBLE]@);
    let v = with(v, "js_readable_stream_get_reader", DOUBLE, [DOUBLE]@);
    let v = with(v, "js_readable_stream_locked", DOUBLE, [DOUBLE]@);
    let v = with(v, "js_readable_stream_cancel", I64, [DOUBLE, DOUBLE]@);
    let v = with(v, "js_readable_stream_tee", DOUBLE, [DOUBLE]@);
    let v = with(v, "js_readable_stream_pipe_to", I64, [DOUBLE, DOUBLE]@);
    let v = with(v, "js_readable_stream_pipe_through", DOUBLE, [DOUBLE, DOUBLE, DOUBLE]@);
    let v = with(v, "js_readable_stream_controller_enqueue", DOUBLE, [DOUBLE, DOUBLE]@);
    let v = with(v, "js_readable_stream_controller_close", DOUBLE, [DOUBLE]@);
    let v = with(v, "js_readable_stream_controller_error", DOUBLE, [DOUBLE, DOUBLE]@);
    let v = with(v, "js_readable_stream_controller_desired_size", DOUBLE, [DOUBLE]@);
    let v = with(v, "js_reader_read", I64, [DOUBLE]@);
    let v = with(v, "js_reader_release_lock", DOUBLE, [DOUBLE]@);
    let v = with(v, "js_reader_closed", I64, [DOUBLE]@);
    let v = with(v, "js_reader_cancel", I64, [DOUBLE, DOUBLE]@);
    let v = with(v, "js_writable_stream_new", DOUBLE, [DOUBLE, DOUBLE, DOUBLE, DOUBLE]@);
    let v = with(v, "js_writable_stream_get_writer", DOUBLE, [DOUBLE]@);
    let v = with(v, "js_writable_stream_locked", DOUBLE, [DOUBLE]@);
    let v = with(v, "js_writable_stream_close", I64, [DOUBLE]@);
    let v = with(v, "js_writable_stream_abort", I64, [DOUBLE, DOUBLE]@);
    let v = with(v, "js_writer_write", I64, [DOUBLE, DOUBLE]@);
    let v = with(v, "js_writer_close", I64, [DOUBLE]@);
    let v = with(v, "js_writer_abort", I64, [DOUBLE, DOUBLE]@);
    let v = with(v, "js_writer_release_lock", DOUBLE, [DOUBLE]@);
    let v = with(v, "js_writer_closed", I64, [DOUBLE]@);
    let v = with(v, "js_writer_ready", I64, [DOUBLE]@);
    let v = with(v, "js_writer_desired_size", DOUBLE, [DOUBLE]@);
    let v = with(v, "js_transform_stream_new", DOUBLE, [DOUBLE, DOUBLE, DOUBLE]@);
    let v = with(v, "js_transform_stream_readable", DOUBLE, [DOUBLE]@);
    let v = with(v, "js_transform_stream_writable", DOUBLE, [DOUBLE]@);
    v
}

fn declare_web_streams(m: &mut LlModule)
    ensures
        declared(final(m).declarations@) == web_streams(declared(old(m).declarations@)),
        old(m).wf() ==> final(m).wf(),
        final(m).host == old(m).host,
        final(m).functions == old(m).functions,
{
    m.declare_function("js_blob_stream", DOUBLE, &[DOUBLE]);
    m.declare_function("js_response_body", DOUBLE, &[DOUBLE]);
    m.declare_function("js_readable_stream_new", DOUBLE, &[DOUBLE, DOUBLE, DOUBLE, DOUBLE]);
    m.declare_function("js_readable_stream_get_reader", DOUBLE, &[DOUBLE]);
    m.declare_function("js_readable_stream_locked", DOUBLE, &[DOUBLE]);
    m.declare_function("js_readable_stream_cancel", I64, &[DOUBLE, DOUBLE]);
    m.declare_function("js_readable_stream_tee", DOUBLE, &[DOUBLE]);
    m.declare_function("js_readable_stream_pipe_to", I64, &[DOUBLE, DOUBLE]);
    m.declare_function("js_readable_stream_pipe_through", DOUBLE, &[DOUBLE, DOUBLE, DOUBLE]);
    m.declare_function("js_readable_stream_controller_enqueue", DOUBLE, &[DOUBLE, DOUBLE]);
    m.declare_function("js_readable_stream_controller_close", DOUBLE, &[DOUBLE]);
    m.declare_function("js_readable_stream_controller_error", DOUBLE, &[DOUBLE, DOUBLE]);
    m.declare_function("js_readable_stream_controller_desired_size", DOUBLE, &[DOUBLE]);
    m.declare_function("js_reader_read", I64, &[DOUBLE]);
    m.declare_function("js_reader_release_lock", DOUBLE, &[DOUBLE]);
    m.declare_function("js_reader_closed", I64, &[DOUBLE]);
    m.declare_function("js_reader_cancel", I64, &[DOUBLE, DOUBLE]);
    m.declare_function("js_writable_stream_new", DOUBLE, &[DOUBLE, DOUBLE, DOUBLE, DOUBLE]);
    m.declare_function("js_writable_stream_get_writer", DOUBLE, &[DOUBLE]);
    m.declare_function("js_writable_stream_locked", DOUBLE, &[DOUBLE]);
    m.declare_function("js_writable_stream_close", I64, &[DOUBLE]);
    m.declare_function("js_writable_stream_abort", I64, &[DOUBLE, DOUBLE]);
    m.declare_function("js_writer_write", I64, &[DOUBLE, DOUBLE]);
    m.declare_function("js_writer_close", I64, &[DOUBLE]);
    m.declare_function("js_writer_abort", I64, &[DOUBLE, DOUBLE]);
    m.declare_function("js_writer_release_lock", DOUBLE, &[DOUBLE]);
    m.declare_function("js_writer_closed", I64, &[DOUBLE]);
    m.declare_function("js_writer_ready", I64, &[DOUBLE]);
    m.declare_function("js_writer_desired_size", DOUBLE, &[DOUBLE]);
    m.declare_function("js_transform_stream_new", DOUBLE, &[DOUBLE, DOUBLE, DOUBLE]);
    m.declare_function("js_transform_stream_readable", DOUBLE, &[DOUBLE]);
    m.declare_function("js_transform_stream_writable", DOUBLE, &[DOUBLE]);
}

/// Abort controllers and signals.
pub open spec fn abort_signals(v: Seq<DeclarationView>) -> Seq<DeclarationView> {
    let v = with(v, "js_abort_controller_new", I64, []@);
    let v = with(v, "js_abort_controller_signal", I64, [I64]@);
    let v = with(v, "js_abort_controller_abort", VOID, [I64]@);
    let v = with(v, "js_abort_controller_abort_reason", VOID, [I64, DOUBLE]@);
    let v = with(v, "js_abort_signal_add_listener", VOID, [I64, DOUBLE, DOUBLE]@);
    let v = with(v, "js_abort_signal_timeout", I64, [DOUBLE]@);
    v
}

fn declare_abort_signals(m: &mut LlModule)
    ensures
        declared(final(m).declarations@) == abort_signals(declared(old(m).declarations@)),
        old(m).wf() ==> final(m).wf(),
        final(m).host == old(m).host,
        final(m).functions == old(m).functions,
{
    m.declare_function("js_abort_controller_new", I64, &[]);
    m.declare_function("js_abort_controller_signal", I64, &[I64]);
    m.declare_function("js_abort_controller_abort", VOID, &[I64]);
    m.declare_function("js_abort_controller_abort_reason", VOID, &[I64, DOUBLE]);
    m.declare_function("js_abort_signal_add_listener", VOID, &[I64, DOUBLE, DOUBLE]);
    m.declare_function("js_abort_signal_timeout", I64, &[DOUBLE]);
}

/// Array storage, the shadow stack, the write barrier and array methods.
pub open spec fn array_storage(v: Seq<DeclarationView>) -> Seq<DeclarationView> {
    let v = with(v, "js_array_alloc", I64, [I32]@);
    let v = with(v, "js_array_alloc_literal", I64, [I32]@);
    let v = with(v, "js_array_push_f64", I64, [I64, DOUBLE]@);
    let v = with(v, "js_array_get_f64", DOUBLE, [I64, I32]@);
    let v = with(v, "js_array_set_f64", VOID, [I64, I32, DOUBLE]@);
    let v = with(v, "js_array_set_f64_extend", I64, [I64, I32, DOUBLE]@);
    let v = with(v, "js_array_length", I32, [I64]@);
    let v = with(v, "js_array_is_array", DOUBLE, [DOUBLE]@);
    let v = with(v, "js_value_length_f64", DOUBLE, [DOUBLE]@);
    let v = with(v, "js_shadow_frame_push", I64, [I32]@);
    let v = with(v, "js_shadow_frame_pop", VOID, [I64]@);
    let v = with(v, "js_shadow_slot_set", VOID, [I32, I64]@);
    let v = with(v, "js_write_barrier", VOID, [I64, I64]@);
    let v = with(v, "js_array_pop_f64", DOUBLE, [I64]@);
    let v = with(v, "js_array_join", I64, [I64, I64]@);
    let v = with(v, "js_array_forEach", VOID, [I64, I64]@);
    let v = with(v, "js_array_fill", I64, [I64, DOUBLE]@);
    let v = with(v, "js_array_delete", I32, [I64, I32]@);
    let v = with(v, "js_array_set_length", VOID, [I64, DOUBLE]@);
    let v = with(v, "js_array_clone", I64, [I64]@);
    let v = with(v, "js_iterator_to_array", I64, [DOUBLE]@);
    v
}

fn declare_array_storage(m: &mut LlModule)
    ensures
        declared(final(m).declarations@) == array_storage(declared(old(m).declarations@)),
        old(m).wf() ==> final(m).wf(),
        final(m).host == old(m).host,
        final(m).functions == old(m).functions,
{
    m.declare_function("js_array_alloc", I64, &[I32]);
    m.declare_function("js_array_alloc_literal", I64, &[I32]);
    m.declare_function("js_array_push_f64", I64, &[I64, DOUBLE]);
    m.declare_function("js_array_get_f64", DOUBLE, &[I64, I32]);
    m.declare_function("js_array_set_f64", VOID, &[I64, I32, DOUBLE]);
    m.declare_function("js_array_set_f64_extend", I64, &[I64, I32, DOUBLE]);
    m.declare_function("js_array_length", I32, &[I64]);
    m.declare_function("js_array_is_array", DOUBLE, &[DOUBLE]);
    m.declare_function("js_value_length_f64", DOUBLE, &[DOUBLE]);
    m.declare_function("js_shadow_frame_push", I64, &[I32]);
    m.declare_function("js_shadow_frame_pop", VOID, &[I64]);
    m.declare_function("js_shadow_slot_set", VOID, &[I32, I64]);
    m.declare_function("js_write_barrier", VOID, &[I64, I64]);
    m.declare_function("js_array_pop_f64", DOUBLE, &[I64]);
    m.declare_function("js_array_join", I64, &[I64, I64]);
    m.declare_function("js_array_forEach", VOID, &[I64, I64]);
    m.declare_function("js_array_fill", I64, &[I64, DOUBLE]);
    m.declare_function("js_array_delete", I32, &[I64, I32]);
    m.declare_function("js_array_set_length", VOID, &[I64, DOUBLE]);
    m.declare_function("js_array_clone", I64, &[I64]);
    m.declare_function("js_iterator_to_array", I64, &[DOUBLE]);
}

/// Object storage.
pub open spec fn object_storage(v: Seq<DeclarationView>) -> Seq<DeclarationView> {
    let v = with(v, "js_object_alloc", I64, [I32, I32]@);
    let v = with(v, "js_object_set_field_by_name", VOID, [I64, I64, DOUBLE]@);
    let v = with(v, "js_object_get_field_by_name_f64", DOUBLE, [I64, I64]@);
    let v = with(v, "js_object_get_field_ic_miss", DOUBLE, [I64, I64, PTR]@);
    let v = with(v, "js_object_rest", I64, [I64, I64]@);
    let v = with(v, "js_array_alloc_with_length", I64, [I32]@);
    let v = with(v, "js_array_set_f64_unchecked", VOID, [I64, I32, DOUBLE]@);
    v
}

fn declare_object_storage(m: &mut LlModule)
    ensures
        declared(final(m).declarations@) == object_storage(declared(old(m).declarations@)),
        old(m).wf() ==> final(m).wf(),
        final(m).host == old(m).host,
        final(m).functions == old(m).functions,
{
    m.declare_function("js_object_alloc", I64, &[I32, I32]);
    m.declare_function("js_object_set_field_by_name", VOID, &[I64, I64, DOUBLE]);
    m.declare_function("js_object_get_field_by_name_f64", DOUBLE, &[I64, I64]);
    m.declare_function("js_object_get_field_ic_miss", DOUBLE, &[I64, I64, PTR]);
    m.declare_function("js_object_rest", I64, &[I64, I64]);
    m.declare_function("js_array_alloc_with_length", I64, &[I32]);
    m.declare_function("js_array_set_f64_unchecked", VOID, &[I64, I32, DOUBLE]);
}

/// Proxies and reflection.
pub open spec fn proxies(v: Seq<DeclarationView>) -> Seq<DeclarationView> {
    let v = with(v, "js_proxy_new", DOUBLE, [DOUBLE, DOUBLE]@);
    let v = with(v, "js_proxy_revoke", VOID, [DOUBLE]@);
    let v = with(v, "js_proxy_is_revoked", I32, [DOUBLE]@);
    let v = with(v, "js_proxy_is_proxy", I32, [DOUBLE]@);
    let v = with(v, "js_proxy_target", DOUBLE, [DOUBLE]@);
    let v = with(v, "js_proxy_get", DOUBLE, [DOUBLE, DOUBLE]@);
    let v = with(v, "js_proxy_set", DOUBLE, [DOUBLE, DOUBLE, DOUBLE]@);
    let v = with(v, "js_proxy_has", DOUBLE, [DOUBLE, DOUBLE]@);
    let v = with(v, "js_proxy_delete", DOUBLE, [DOUBLE, DOUBLE]@);
    let v = with(v, "js_proxy_apply", DOUBLE, [DOUBLE, DOUBLE, DOUBLE]@);
    let v = with(v, "js_proxy_construct", DOUBLE, [DOUBLE, DOUBLE, DOUBLE]@);
    let v = with(v, "js_reflect_get", DOUBLE, [DOUBLE, DOUBLE]@);
    let v = with(v, "js_reflect_set", DOUBLE, [DOUBLE, DOUBLE, DOUBLE]@);
    let v = with(v, "js_reflect_has", DOUBLE, [DOUBLE, DOUBLE]@);
    let v = with(v, "js_reflect_delete", DOUBLE, [DOUBLE, DOUBLE]@);
    let v = with(v, "js_reflect_own_keys", DOUBLE, [DOUBLE]@);
    let v = with(v, "js_reflect_apply", DOUBLE, [DOUBLE, DOUBLE, DOUBLE]@);
    let v = with(v, "js_reflect_define_property", DOUBLE, [DOUBLE, DOUBLE, DOUBLE]@);
    v
}

fn declare_proxies(m: &mut LlModule)
    ensures
        declared(final(m).declarations@) == proxies(declared(old(m).declarations@)),
        old(m).wf() ==> final(m).wf(),
        final(m).host == old(m).host,
        final(m).functions == old(m).functions,
{
    m.declare_function("js_proxy_new", DOUBLE, &[DOUBLE, DOUBLE]);
    m.declare_function("js_proxy_revoke", VOID, &[DOUBLE]);
    m.declare_function("js_proxy_is_revoked", I32, &[DOUBLE]);
    m.declare_function("js_proxy_is_proxy", I32, &[DOUBLE]);
    m.declare_function("js_proxy_target", DOUBLE, &[DOUBLE]);
    m.declare_function("js_proxy_get", DOUBLE, &[DOUBLE, DOUBLE]);
    m.declare_function("js_proxy_set", DOUBLE, &[DOUBLE, DOUBLE, DOUBLE]);
    m.declare_function("js_proxy_has", DOUBLE, &[DOUBLE, DOUBLE]);
    m.declare_function("js_proxy_delete", DOUBLE, &[DOUBLE, DOUBLE]);
    m.declare_function("js_proxy_apply", DOUBLE, &[DOUBLE, DOUBLE, DOUBLE]);
    m.declare_function("js_proxy_construct", DOUBLE, &[DOUBLE, DOUBLE, DOUBLE]);
    m.declare_function("js_reflect_get", DOUBLE, &[DOUBLE, DOUBLE]);
    m.declare_function("js_reflect_set", DOUBLE, &[DOUBLE, DOUBLE, DOUBLE]);
    m.declare_function("js_reflect_has", DOUBLE, &[DOUBLE, DOUBLE]);
    m.declare_function("js_reflect_delete", DOUBLE, &[DOUBLE, DOUBLE]);
    m.declare_function("js_reflect_own_keys", DOUBLE, &[DOUBLE]);
    m.declare_function("js_reflect_apply", DOUBLE, &[DOUBLE, DOUBLE, DOUBLE]);
    m.declare_function("js_reflect_define_property", DOUBLE, &[DOUBLE, DOUBLE, DOUBLE]);
}

/// HTTP clients and servers.
pub open spec fn http(v: Seq<DeclarationView>) -> Seq<DeclarationView> {
    let v = with(v, "js_http_client_request_end", I64, [I64, DOUBLE]@);
    let v = with(v, "js_http_client_request_write", I64, [I64, DOUBLE]@);
    let v = with(v, "js_http_get", I64, [DOUBLE, I64]@);
    let v = with(v, "js_http_on", I64, [I64, I64, I64]@);
    let v = with(v, "js_http_request", I64, [DOUBLE, I64]@);
    let v = with(v, "js_http_request_body", I64, [I64]@);
    let v = with(v, "js_http_request_body_length", DOUBLE, [I64]@);
    let v = with(v, "js_http_request_content_type", I64, [I64]@);
    let v = with(v, "js_http_request_has_header", DOUBLE, [I64, I64]@);
    let v = with(v, "js_http_request_header", I64, [I64, I64]@);
    let v = with(v, "js_http_request_headers_all", I64, [I64]@);
    let v = with(v, "js_http_request_id", DOUBLE, [I64]@);
    let v = with(v, "js_http_request_is_method", DOUBLE, [I64, I64]@);
    let v = with(v, "js_http_request_method", I64, [I64]@);
    let v = with(v, "js_http_request_path", I64, [I64]@);
    let v = with(v, "js_http_request_query", I64, [I64]@);
    let v = with(v, "js_http_request_query_all", I64, [I64]@);
    let v = with(v, "js_http_request_query_param", I64, [I64, I64]@);
    let v = with(v, "js_http_respond_error", DOUBLE, [I64, DOUBLE, I64]@);
    let v = with(v, "js_http_respond_html", DOUBLE, [I64, DOUBLE, I64]@);
    let v = with(v, "js_http_respond_json", DOUBLE, [I64, DOUBLE, I64]@);
    let v = with(v, "js_http_respond_not_found", DOUBLE, [I64]@);
    let v = with(v, "js_http_respond_redirect", DOUBLE, [I64, I64, DOUBLE]@);
    let v = with(v, "js_http_respond_status_text", I64, [DOUBLE]@);
    let v = with(v, "js_http_respond_text", DOUBLE, [I64, DOUBLE, I64]@);
    let v = with(v, "js_http_respond_with_headers", DOUBLE, [I64, DOUBLE, I64, I64]@);
    let v = with(v, "js_http_response_headers", DOUBLE, [I64]@);
    let v = with(v, "js_http_server_accept_v2", I64, [I64]@);
    let v = with(v, "js_http_server_close", DOUBLE, [I64]@);
    let v = with(v, "js_http_server_create", I64, [DOUBLE]@);
    let v = with(v, "js_http_set_header", I64, [I64, I64, I64]@);
    let v = with(v, "js_http_set_timeout", I64, [I64, DOUBLE]@);
    let v = with(v, "js_http_status_code", DOUBLE, [I64]@);
    let v = with(v, "js_http_status_message", I64, [I64]@);
    let v = with(v, "js_https_get", I64, [DOUBLE, I64]@);
    let v = with(v, "js_https_request", I64, [DOUBLE, I64]@);
    v
}

fn declare_http(m: &mut LlModule)
    ensures
        declared(final(m).declarations@) == http(declared(old(m).declarations@)),
        old(m).wf() ==> final(m).wf(),
        final(m).host == old(m).host,
        final(m).functions == old(m).functions,
{
    m.declare_function("js_http_client_request_end", I64, &[I64, DOUBLE]);
    m.declare_function("js_http_client_request_write", I64, &[I64, DOUBLE]);
    m.declare_function("js_http_get", I64, &[DOUBLE, I64]);
    m.declare_function("js_http_on", I64, &[I64, I64, I64]);
    m.declare_function("js_http_request", I64, &[DOUBLE, I64]);
    m.declare_function("js_http_request_body", I64, &[I64]);
    m.declare_function("js_http_request_body_length", DOUBLE, &[I64]);
    m.declare_function("js_http_request_content_type", I64, &[I64]);
    m.declare_function("js_http_request_has_header", DOUBLE, &[I64, I64]);
    m.declare_function("js_http_request_header", I64, &[I64, I64]);
    m.declare_function("js_http_request_headers_all", I64, &[I64]);
    m.declare_function("js_http_request_id", DOUBLE, &[I64]);
    m.declare_function("js_http_request_is_method", DOUBLE, &[I64, I64]);
    m.declare_function("js_http_request_method", I64, &[I64]);
    m.declare_function("js_http_request_path", I64, &[I64]);
    m.declare_function("js_http_request_query", I64, &[I64]);
    m.declare_function("js_http_request_query_all", I64, &[I64]);
    m.declare_function("js_http_request_query_param", I64, &[I64, I64]);
    m.declare_function("js_http_respond_error", DOUBLE, &[I64, DOUBLE, I64]);
    m.declare_function("js_http_respond_html", DOUBLE, &[I64, DOUBLE, I64]);
    m.declare_function("js_http_respond_json", DOUBLE, &[I64, DOUBLE, I64]);
    m.declare_function("js_http_respond_not_found", DOUBLE, &[I64]);
    m.declare_function("js_http_respond_redirect", DOUBLE, &[I64, I64, DOUBLE]);
    m.declare_function("js_http_respond_status_text", I64, &[DOUBLE]);
    m.declare_function("js_http_respond_text", DOUBLE, &[I64, DOUBLE, I64]);
    m.declare_function("js_http_respond_with_headers", DOUBLE, &[I64, DOUBLE, I64, I64]);
    m.declare_function("js_http_response_headers", DOUBLE, &[I64]);
    m.declare_function("js_http_server_accept_v2", I64, &[I64]);
    m.declare_function("js_http_server_close", DOUBLE, &[I64]);
    m.declare_function("js_http_server_create", I64, &[DOUBLE]);
    m.declare_function("js_http_set_header", I64, &[I64, I64, I64]);
    m.declare_function("js_http_set_timeout", I64, &[I64, DOUBLE]);
    m.declare_function("js_http_status_code", DOUBLE, &[I64]);
    m.declare_function("js_http_status_message", I64, &[I64]);
    m.declare_function("js_https_get", I64, &[DOUBLE, I64]);
    m.declare_function("js_https_request", I64, &[DOUBLE, I64]);
}

/// PostgreSQL and Redis.
pub open spec fn databases(v: Seq<DeclarationView>) -> Seq<DeclarationView> {
    let v = with(v, "js_pg_client_connect", I64, [I64]@);
    let v = with(v, "js_pg_client_end", I64, [I64]@);
    let v = with(v, "js_pg_client_new", I64, [I64]@);
    let v = with(v, "js_pg_client_query", I64, [I64, I64]@);
    let v = with(v, "js_pg_client_query_params", I64, [I64, I64, I64]@);
    let v = with(v, "js_pg_connect", I64, [I64]@);
    let v = with(v, "js_pg_create_pool", I64, [I64]@);
    let v = with(v, "js_pg_pool_end", I64, [I64]@);
    let v = with(v, "js_pg_pool_new", I64, [I64]@);
    let v = with(v, "js_pg_pool_query", I64, [I64, I64]@);
    let v = with(v, "js_ioredis_connect", I64, [I64]@);
    let v = with(v, "js_ioredis_decr", I64, [I64, I64]@);
    let v = with(v, "js_ioredis_del", I64, [I64, I64]@);
    let v = with(v, "js_ioredis_disconnect", VOID, [I64]@);
    let v = with(v, "js_ioredis_exists", I64, [I64, I64]@);
    let v = with(v, "js_ioredis_expire", I64, [I64, I64, DOUBLE]@);
    let v = with(v, "js_ioredis_get", I64, [I64, I64]@);
    let v = with(v, "js_ioredis_hdel", I64, [I64, I64, I64]@);
    let v = with(v, "js_ioredis_hget", I64, [I64, I64, I64]@);
    let v = with(v, "js_ioredis_hgetall", I64, [I64, I64]@);
    let v = with(v, "js_ioredis_hlen", I64, [I64, I64]@);
    let v = with(v, "js_ioredis_hset", I64, [I64, I64, I64, I64]@);
    let v = with(v, "js_ioredis_incr", I64, [I64, I64]@);
    let v = with(v, "js_ioredis_new", I64, [I64]@);
    let v = with(v, "js_ioredis_ping", I64, [I64]@);
    let v = with(v, "js_ioredis_quit", I64, [I64]@);
    let v = with(v, "js_ioredis_set", I64, [I64, I64, I64]@);
    let v = with(v, "js_ioredis_setex", I64, [I64, I64, DOUBLE, I64]@);
    v
}

fn declare_databases(m: &mut LlModule)
    ensures
        declared(final(m).declarations@) == databases(declared(old(m).declarations@)),
        old(m).wf() ==> final(m).wf(),
        final(m).host == old(m).host,
        final(m).functions == old(m).functions,
{
    m.declare_function("js_pg_client_connect", I64, &[I64]);
    m.declare_function("js_pg_client_end", I64, &[I64]);
    m.declare_function("js_pg_client_new", I64, &[I64]);
    m.declare_function("js_pg_client_query", I64, &[I64, I64]);
    m.declare_function("js_pg_client_query_params", I64, &[I64, I64, I64]);
    m.declare_function("js_pg_connect", I64, &[I64]);
    m.declare_function("js_pg_create_pool", I64, &[I64]);
    m.declare_function("js_pg_pool_end", I64, &[I64]);
    m.declare_function("js_pg_pool_new", I64, &[I64]);
    m.declare_function("js_pg_pool_query", I64, &[I64, I64]);
    m.declare_function("js_ioredis_connect", I64, &[I64]);
    m.declare_function("js_ioredis_decr", I64, &[I64, I64]);
    m.declare_function("js_ioredis_del", I64, &[I64, I64]);
    m.declare_function("js_ioredis_disconnect", VOID, &[I64]);
    m.declare_function("js_ioredis_exists", I64, &[I64, I64]);
    m.declare_function("js_ioredis_expire", I64, &[I64, I64, DOUBLE]);
    m.declare_function("js_ioredis_get", I64, &[I64, I64]);
    m.declare_function("js_ioredis_hdel", I64, &[I64, I64, I64]);
    m.declare_function("js_ioredis_hget", I64, &[I64, I64, I64]);
    m.declare_function("js_ioredis_hgetall", I64, &[I64, I64]);
    m.declare_function("js_ioredis_hlen", I64, &[I64, I64]);
    m.declare_function("js_ioredis_hset", I64, &[I64, I64, I64, I64]);
    m.declare_function("js_ioredis_incr", I64, &[I64, I64]);
    m.declare_function("js_ioredis_new", I64, &[I64]);
    m.declare_function("js_ioredis_ping", I64, &[I64]);
    m.declare_function("js_ioredis_quit", I64, &[I64]);
    m.declare_function("js_ioredis_set", I64, &[I64, I64, I64]);
    m.declare_function("js_ioredis_setex", I64, &[I64, I64, DOUBLE, I64]);
}

/// MongoDB.
pub open spec fn mongodb(v: Seq<DeclarationView>) -> Seq<DeclarationView> {
    let v = with(v, "js_mongodb_client_close", I64, [I64]@);
    let v = with(v, "js_mongodb_client_connect", I64, [I64]@);
    let v = with(v, "js_mongodb_client_db", I64, [I64, I64]@);
    let v = with(v, "js_mongodb_client_list_databases", I64, [I64]@);
    let v = with(v, "js_mongodb_client_new", I64, [I64]@);
    let v = with(v, "js_mongodb_collection_count_value", I64, [I64, DOUBLE]@);
    let v = with(v, "js_mongodb_collection_delete_many_value", I64, [I64, DOUBLE]@);
    let v = with(v, "js_mongodb_collection_delete_one_value", I64, [I64, DOUBLE]@);
    let v = with(v, "js_mongodb_collection_find_one_value", I64, [I64, DOUBLE]@);
    let v = with(v, "js_mongodb_collection_find_value", I64, [I64, DOUBLE]@);
    let v = with(v, "js_mongodb_collection_insert_many_value", I64, [I64, DOUBLE]@);
    let v = with(v, "js_mongodb_collection_insert_one_value", I64, [I64, DOUBLE]@);
    let v = with(v, "js_mongodb_collection_update_many_value", I64, [I64, DOUBLE, DOUBLE]@);
    let v = with(v, "js_mongodb_collection_update_one_value", I64, [I64, DOUBLE, DOUBLE]@);
    let v = with(v, "js_mongodb_collection_count", I64, [I64, I64]@);
    let v = with(v, "js_mongodb_collection_delete_many", I64, [I64, I64]@);
    let v = with(v, "js_mongodb_collection_delete_one", I64, [I64, I64]@);
    let v = with(v, "js_mongodb_collection_find", I64, [I64, I64]@);
    let v = with(v, "js_mongodb_collection_find_one", I64, [I64, I64]@);
    let v = with(v, "js_mongodb_collection_insert_many", I64, [I64, I64]@);
    let v = with(v, "js_mongodb_collection_insert_one", I64, [I64, I64]@);
    let v = with(v, "js_mongodb_collection_update_many", I64, [I64, I64, I64]@);
    let v = with(v, "js_mongodb_collection_update_one", I64, [I64, I64, I64]@);
    let v = with(v, "js_mongodb_connect", I64, [I64]@);
    let v = with(v, "js_mongodb_db_collection", I64, [I64, I64]@);
    let v = with(v, "js_mongodb_db_list_collections", I64, [I64]@);
    v
}

fn declare_mongodb(m: &mut LlModule)
    ensures
        declared(final(m).declarations@) == mongodb(declared(old(m).declarations@)),
        old(m).wf() ==> final(m).wf(),
        final(m).host == old(m).host,
        final(m).functions == old(m).functions,
{
    m.declare_function("js_mongodb_client_close", I64, &[I64]);
    m.declare_function("js_mongodb_client_connect", I64, &[I64]);
    m.declare_function("js_mongodb_client_db", I64, &[I64, I64]);
    m.declare_function("js_mongodb_client_list_databases", I64, &[I64]);
    m.declare_function("js_mongodb_client_new", I64, &[I64]);
    m.declare_function("js_mongodb_collection_count_value", I64, &[I64, DOUBLE]);
    m.declare_function("js_mongodb_collection_delete_many_value", I64, &[I64, DOUBLE]);
    m.declare_function("js_mongodb_collection_delete_one_value", I64, &[I64, DOUBLE]);
    m.declare_function("js_mongodb_collection_find_one_value", I64, &[I64, DOUBLE]);
    m.declare_function("js_mongodb_collection_find_value", I64, &[I64, DOUBLE]);
    m.declare_function("js_mongodb_collection_insert_many_value", I64, &[I64, DOUBLE]);
    m.declare_function("js_mongodb_collection_insert_one_value", I64, &[I64, DOUBLE]);
    m.declare_function("js_mongodb_collection_update_many_value", I64, &[I64, DOUBLE, DOUBLE]);
    m.declare_function("js_mongodb_collection_update_one_value", I64, &[I64, DOUBLE, DOUBLE]);
    m.declare_function("js_mongodb_collection_count", I64, &[I64, I64]);
    m.declare_function("js_mongodb_collection_delete_many", I64, &[I64, I64]);
    m.declare_function("js_mongodb_collection_delete_one", I64, &[I64, I64]);
    m.declare_function("js_mongodb_collection_find", I64, &[I64, I64]);
    m.declare_function("js_mongodb_collection_find_one", I64, &[I64, I64]);
    m.declare_function("js_mongodb_collection_insert_many", I64, &[I64, I64]);
    m.declare_function("js_mongodb_collection_insert_one", I64, &[I64, I64]);
    m.declare_function("js_mongodb_collection_update_many", I64, &[I64, I64, I64]);
    m.declare_function("js_mongodb_collection_update_one", I64, &[I64, I64, I64]);
    m.declare_function("js_mongodb_connect", I64, &[I64]);
    m.declare_function("js_mongodb_db_collection", I64, &[I64, I64]);
    m.declare_function("js_mongodb_db_list_collections", I64, &[I64]);
}

/// Password hashing, threads, tokens and HTTP requests.
pub open spec fn credentials(v: Seq<DeclarationView>) -> Seq<DeclarationView> {
    let v = with(v, "js_argon2_hash", I64, [I64]@);
    let v = with(v, "js_argon2_hash_options", I64, [I64, I64]@);
    let v = with(v, "js_argon2_verify", I64, [I64, I64]@);
    let v = with(v, "js_bcrypt_compare", I64, [I64, I64]@);
    let v = with(v, "js_bcrypt_compare_sync", DOUBLE, [I64, I64]@);
    let v = with(v, "js_bcrypt_gen_salt", I64, [DOUBLE]@);
    let v = with(v, "js_bcrypt_hash", I64, [I64, DOUBLE]@);
    let v = with(v, "js_bcrypt_hash_sync", I64, [I64, DOUBLE]@);
    let v = with(v, "js_thread_parallel_map", DOUBLE, [DOUBLE, DOUBLE]@);
    let v = with(v, "js_thread_parallel_filter", DOUBLE, [DOUBLE, DOUBLE]@);
    let v = with(v, "js_thread_spawn", DOUBLE, [DOUBLE]@);
    let v = with(v, "js_jwt_decode", I64, [I64]@);
    let v = with(v, "js_jwt_sign", I64, [I64, I64, DOUBLE, I64]@);
    let v = with(v, "js_jwt_sign_es256", I64, [I64, I64, DOUBLE, I64]@);
    let v = with(v, "js_jwt_sign_rs256", I64, [I64, I64, DOUBLE, I64]@);
    let v = with(v, "js_jwt_verify", I64, [I64, I64]@);
    let v = with(v, "js_axios_create", DOUBLE, [I64]@);
    let v = with(v, "js_axios_delete", I64, [I64]@);
    let v = with(v, "js_axios_get", I64, [I64]@);
    let v = with(v, "js_axios_post", I64, [I64, I64]@);
    let v = with(v, "js_axios_put", I64, [I64, I64]@);
    let v = with(v, "js_axios_patch", I64, [I64, I64]@);
    let v = with(v, "js_axios_request", I64, [I64]@);
    let v = with(v, "js_axios_response_status", DOUBLE, [I64]@);
    let v = with(v, "js_axios_response_status_text", I64, [I64]@);
    let v = with(v, "js_axios_response_data", I64, [I64]@);
    v
}

fn declare_credentials(m: &mut LlModule)
    ensures
        declared(final(m).declarations@) == credentials(declared(old(m).declarations@)),
        old(m).wf() ==> final(m).wf(),
        final(m).host == old(m).host,
        final(m).functions == old(m).functions,
{
    m.declare_function("js_argon2_hash", I64, &[I64]);
    m.declare_function("js_argon2_hash_options", I64, &[I64, I64]);
    m.declare_function("js_argon2_verify", I64, &[I64, I64]);
    m.declare_function("js_bcrypt_compare", I64, &[I64, I64]);
    m.declare_function("js_bcrypt_compare_sync", DOUBLE, &[I64, I64]);
    m.declare_function("js_bcrypt_gen_salt", I64, &[DOUBLE]);
    m.declare_function("js_bcrypt_hash", I64, &[I64, DOUBLE]);
    m.declare_function("js_bcrypt_hash_sync", I64, &[I64, DOUBLE]);
    m.declare_function("js_thread_parallel_map", DOUBLE, &[DOUBLE, DOUBLE]);
    m.declare_function("js_thread_parallel_filter", DOUBLE, &[DOUBLE, DOUBLE]);
    m.declare_function("js_thread_spawn", DOUBLE, &[DOUBLE]);
    m.declare_function("js_jwt_decode", I64, &[I64]);
    m.declare_function("js_jwt_sign", I64, &[I64, I64, DOUBLE, I64]);
    m.declare_function("js_jwt_sign_es256", I64, &[I64, I64, DOUBLE, I64]);
    m.declare_function("js_jwt_sign_rs256", I64, &[I64, I64, DOUBLE, I64]);
    m.declare_function("js_jwt_verify", I64, &[I64, I64]);
    m.declare_function("js_axios_create", DOUBLE, &[I64]);
    m.declare_function("js_axios_delete", I64, &[I64]);
    m.declare_function("js_axios_get", I64, &[I64]);
    m.declare_function("js_axios_post", I64, &[I64, I64]);
    m.declare_function("js_axios_put", I64, &[I64, I64]);
    m.declare_function("js_axios_patch", I64, &[I64, I64]);
    m.declare_function("js_axios_request", I64, &[I64]);
    m.declare_function("js_axios_response_status", DOUBLE, &[I64]);
    m.declare_function("js_axios_response_status_text", I64, &[I64]);
    m.declare_function("js_axios_response_data", I64, &[I64]);
}

/// Images, scheduling and asynchronous context.
pub open spec fn images(v: Seq<DeclarationView>) -> Seq<DeclarationView> {
    let v = with(v, "js_sharp_blur", I64, [I64, DOUBLE]@);
    let v = with(v, "js_sharp_flip", I64, [I64]@);
    let v = with(v, "js_sharp_flop", I64, [I64]@);
    let v = with(v, "js_sharp_from_buffer", I64, [I64, DOUBLE]@);
    let v = with(v, "js_sharp_from_file", I64, [I64]@);
    let v = with(v, "js_sharp_grayscale", I64, [I64]@);
    let v = with(v, "js_sharp_metadata", I64, [I64]@);
    let v = with(v, "js_sharp_negate", I64, [I64]@);
    let v = with(v, "js_sharp_quality", I64, [I64, DOUBLE]@);
    let v = with(v, "js_sharp_resize", I64, [I64, DOUBLE, DOUBLE]@);
    let v = with(v, "js_sharp_rotate", I64, [I64, DOUBLE]@);
    let v = with(v, "js_sharp_to_buffer", I64, [I64]@);
    let v = with(v, "js_sharp_to_file", I64, [I64, I64]@);
    let v = with(v, "js_sharp_to_format", I64, [I64, I64]@);
    let v = with(v, "js_cron_clear_interval", VOID, [I64]@);
    let v = with(v, "js_cron_clear_timeout", VOID, [I64]@);
    let v = with(v, "js_cron_describe", I64, [I64]@);
    let v = with(v, "js_cron_job_is_running", DOUBLE, [I64]@);
    let v = with(v, "js_cron_job_start", VOID, [I64]@);
    let v = with(v, "js_cron_job_stop", VOID, [I64]@);
    let v = with(v, "js_cron_next_date", I64, [I64]@);
    let v = with(v, "js_cron_next_dates", I64, [I64, DOUBLE]@);
    let v = with(v, "js_cron_schedule", I64, [I64, I64]@);
    let v = with(v, "js_cron_set_interval", I64, [DOUBLE, DOUBLE]@);
    let v = with(v, "js_cron_set_timeout", I64, [DOUBLE, DOUBLE]@);
    let v = with(v, "js_cron_timer_has_pending", I32, []@);
    let v = with(v, "js_cron_timer_tick", I32, []@);
    let v = with(v, "js_cron_validate", DOUBLE, [I64]@);
    let v = with(v, "js_async_local_storage_disable", VOID, [I64]@);
    let v = with(v, "js_async_local_storage_enter_with", VOID, [I64, DOUBLE]@);
    let v = with(v, "js_async_local_storage_exit", DOUBLE, [I64, I64]@);
    let v = with(v, "js_async_local_storage_get_store", DOUBLE, [I64]@);
    let v = with(v, "js_async_local_storage_new", I64, []@);
    let v = with(v, "js_async_local_storage_run", DOUBLE, [I64, DOUBLE, I64]@);
    v
}

fn declare_images(m: &mut LlModule)
    ensures
        declared(final(m).declarations@) == images(declared(old(m).declarations@)),
        old(m).wf() ==> final(m).wf(),
        final(m).host == old(m).host,
        final(m).functions == old(m).functions,
{
    m.declare_function("js_sharp_blur", I64, &[I64, DOUBLE]);
    m.declare_function("js_sharp_flip", I64, &[I64]);
    m.declare_function("js_sharp_flop", I64, &[I64]);
    m.declare_function("js_sharp_from_buffer", I64, &[I64, DOUBLE]);
    m.declare_function("js_sharp_from_file", I64, &[I64]);
    m.declare_function("js_sharp_grayscale", I64, &[I64]);
    m.declare_function("js_sharp_metadata", I64, &[I64]);
    m.declare_function("js_sharp_negate", I64, &[I64]);
    m.declare_function("js_sharp_quality", I64, &[I64, DOUBLE]);
    m.declare_function("js_sharp_resize", I64, &[I64, DOUBLE, DOUBLE]);
    m.declare_function("js_sharp_rotate", I64, &[I64, DOUBLE]);
    m.declare_function("js_sharp_to_buffer", I64, &[I64]);
    m.declare_function("js_sharp_to_file", I64, &[I64, I64]);
    m.declare_function("js_sharp_to_format", I64, &[I64, I64]);
    m.declare_function("js_cron_clear_interval", VOID, &[I64]);
    m.declare_function("js_cron_clear_timeout", VOID, &[I64]);
    m.declare_function("js_cron_describe", I64, &[I64]);
    m.declare_function("js_cron_job_is_running", DOUBLE, &[I64]);
    m.declare_function("js_cron_job_start", VOID, &[I64]);
    m.declare_function("js_cron_job_stop", VOID, &[I64]);
    m.declare_function("js_cron_next_date", I64, &[I64]);
    m.declare_function("js_cron_next_dates", I64, &[I64, DOUBLE]);
    m.declare_function("js_cron_schedule", I64, &[I64, I64]);
    m.declare_function("js_cron_set_interval", I64, &[DOUBLE, DOUBLE]);
    m.declare_function("js_cron_set_timeout", I64, &[DOUBLE, DOUBLE]);
    m.declare_function("js_cron_timer_has_pending", I32, &[]);
    m.declare_function("js_cron_timer_tick", I32, &[]);
    m.declare_function("js_cron_validate", DOUBLE, &[I64]);
    m.declare_function("js_async_local_storage_disable", VOID, &[I64]);
    m.declare_function("js_async_local_storage_enter_with", VOID, &[I64, DOUBLE]);
    m.declare_function("js_async_local_storage_exit", DOUBLE, &[I64, I64]);
    m.declare_function("js_async_local_storage_get_store", DOUBLE, &[I64]);
    m.declare_function("js_async_local_storage_new", I64, &[]);
    m.declare_function("js_async_local_storage_run", DOUBLE, &[I64, DOUBLE, I64]);
}

/// Compression, buffers and child processes.
pub open spec fn buffers(v: Seq<DeclarationView>) -> Seq<DeclarationView> {
    let v = with(v, "js_zlib_deflate_sync", I64, [I64]@);
    let v = with(v, "js_zlib_gunzip", I64, [I64]@);
    let v = with(v, "js_zlib_gunzip_sync", I64, [I64]@);
    let v = with(v, "js_zlib_gzip", I64, [I64]@);
    let v = with(v, "js_zlib_gzip_sync", I64, [I64]@);
    let v = with(v, "js_zlib_inflate_sync", I64, [I64]@);
    let v = with(v, "js_buffer_alloc_unsafe", I64, [I32]@);
    let v = with(v, "js_buffer_byte_length", I32, [I64]@);
    let v = with(v, "js_buffer_concat", I64, [I64]@);
    let v = with(v, "js_buffer_copy", I32, [I64, I64, I32, I32, I32]@);
    let v = with(v, "js_buffer_equals", I32, [I64, I64]@);
    let v = with(v, "js_buffer_fill", I64, [I64, I32]@);
    let v = with(v, "js_buffer_from_value", I64, [I64, I32]@);
    let v = with(v, "js_buffer_is_buffer", I32, [I64]@);
    let v = with(v, "js_buffer_print", VOID, [I64]@);
    let v = with(v, "js_buffer_set", VOID, [I64, I32, I32]@);
    let v = with(v, "js_buffer_set_from", VOID, [I64, I64, I32]@);
    let v = with(v, "js_buffer_slice", I64, [I64, I32, I32]@);
    let v = with(v, "js_buffer_to_string", I64, [I64, I32]@);
    let v = with(v, "js_buffer_write", I32, [I64, I64, I32, I32]@);
    let v = with(v, "js_child_process_exec_sync", I64, [I64, I64]@);
    let v = with(v, "js_child_process_get_process_status", I64, [DOUBLE]@);
    let v = with(v, "js_child_process_kill_process", I32, [DOUBLE]@);
    let v = with(v, "js_child_process_spawn_background", I64, [DOUBLE, I64, DOUBLE, DOUBLE]@);
    let v = with(v, "js_child_process_spawn_sync", I64, [I64, I64, I64]@);
    v
}

fn declare_buffers(m: &mut LlModule)
    ensures
        declared(final(m).declarations@) == buffers(declared(old(m).declarations@)),
        old(m).wf() ==> final(m).wf(),
        final(m).host == old(m).host,
        final(m).functions == old(m).functions,
{
    m.declare_function("js_zlib_deflate_sync", I64, &[I64]);
    m.declare_function("js_zlib_gunzip", I64, &[I64]);
    m.declare_function("js_zlib_gunzip_sync", I64, &[I64]);
    m.declare_function("js_zlib_gzip", I64, &[I64]);
    m.declare_function("js_zlib_gzip_sync", I64, &[I64]);
    m.declare_function("js_zlib_inflate_sync", I64, &[I64]);
    m.declare_function("js_buffer_alloc_unsafe", I64, &[I32]);
    m.declare_function("js_buffer_byte_length", I32, &[I64]);
    m.declare_function("js_buffer_concat", I64, &[I64]);
    m.declare_function("js_buffer_copy", I32, &[I64, I64, I32, I32, I32]);
    m.declare_function("js_buffer_equals", I32, &[I64, I64]);
    m.declare_function("js_buffer_fill", I64, &[I64, I32]);
    m.declare_function("js_buffer_from_value", I64, &[I64, I32]);
    m.declare_function("js_buffer_is_buffer", I32, &[I64]);
    m.declare_function("js_buffer_print", VOID, &[I64]);
    m.declare_function("js_buffer_set", VOID, &[I64, I32, I32]);
    m.declare_function("js_buffer_set_from", VOID, &[I64, I64, I32]);
    m.declare_function("js_buffer_slice", I64, &[I64, I32, I32]);
    m.declare_function("js_buffer_to_string", I64, &[I64, I32]);
    m.declare_function("js_buffer_write", I32, &[I64, I64, I32, I32]);
    m.declare_function("js_child_process_exec_sync", I64, &[I64, I64]);
    m.declare_function("js_child_process_get_process_status", I64, &[DOUBLE]);
    m.declare_function("js_child_process_kill_process", I32, &[DOUBLE]);
    m.declare_function("js_child_process_spawn_background", I64, &[DOUBLE, I64, DOUBLE, DOUBLE]);
    m.declare_function("js_child_process_spawn_sync", I64, &[I64, I64, I64]);
}

/// HTML documents.
pub open spec fn documents(v: Seq<DeclarationView>) -> Seq<DeclarationView> {
    let v = with(v, "js_cheerio_load", I64, [I64]@);
    let v = with(v, "js_cheerio_load_fragment", I64, [I64]@);
    let v = with(v, "js_cheerio_select", I64, [I64, I64]@);
    let v = with(v, "js_cheerio_selection_attr", I64, [I64, I64]@);
    let v = with(v, "js_cheerio_selection_attrs", I64, [I64, I64]@);
    let v = with(v, "js_cheerio_selection_children", I64, [I64, I64]@);
    let v = with(v, "js_cheerio_selection_eq", I64, [I64, DOUBLE]@);
    let v = with(v, "js_cheerio_selection_find", I64, [I64, I64]@);
    let v = with(v, "js_cheerio_selection_first", I64, [I64]@);
    let v = with(v, "js_cheerio_selection_has_class", DOUBLE, [I64, I64]@);
    let v = with(v, "js_cheerio_selection_html", I64, [I64]@);
    let v = with(v, "js_cheerio_selection_is", DOUBLE, [I64, I64]@);
    let v = with(v, "js_cheerio_selection_last", I64, [I64]@);
    let v = with(v, "js_cheerio_selection_length", DOUBLE, [I64]@);
    let v = with(v, "js_cheerio_selection_parent", I64, [I64]@);
    let v = with(v, "js_cheerio_selection_text", I64, [I64]@);
    let v = with(v, "js_cheerio_selection_texts", I64, [I64]@);
    let v = with(v, "js_cheerio_selection_to_array", I64, [I64]@);
    v
}

fn declare_documents(m: &mut LlModule)
    ensures
        declared(final(m).declarations@) == documents(declared(old(m).declarations@)),
        old(m).wf() ==> final(m).wf(),
        final(m).host == old(m).host,
        final(m).functions == old(m).functions,
{
    m.declare_function("js_cheerio_load", I64, &[I64]);
    m.declare_function("js_cheerio_load_fragment", I64, &[I64]);
    m.declare_function("js_cheerio_select", I64, &[I64, I64]);
    m.declare_function("js_cheerio_selection_attr", I64, &[I64, I64]);
    m.declare_function("js_cheerio_selection_attrs", I64, &[I64, I64]);
    m.declare_function("js_cheerio_selection_children", I64, &[I64, I64]);
    m.declare_function("js_cheerio_selection_eq", I64, &[I64, DOUBLE]);
    m.declare_function("js_cheerio_selection_find", I64, &[I64, I64]);
    m.declare_function("js_cheerio_selection_first", I64, &[I64]);
    m.declare_function("js_cheerio_selection_has_class", DOUBLE, &[I64, I64]);
    m.declare_function("js_cheerio_selection_html", I64, &[I64]);
    m.declare_function("js_cheerio_selection_is", DOUBLE, &[I64, I64]);
    m.declare_function("js_cheerio_selection_last", I64, &[I64]);
    m.declare_function("js_cheerio_selection_length", DOUBLE, &[I64]);
    m.declare_function("js_cheerio_selection_parent", I64, &[I64]);
    m.declare_function("js_cheerio_selection_text", I64, &[I64]);
    m.declare_function("js_cheerio_selection_texts", I64, &[I64]);
    m.declare_function("js_cheerio_selection_to_array", I64, &[I64]);
}

/// URLs.
pub open spec fn urls(v: Seq<DeclarationView>) -> Seq<DeclarationView> {
    let v = with(v, "js_url_file_url_to_path", DOUBLE, [DOUBLE]@);
    let v = with(v, "js_url_get_hash", DOUBLE, [I64]@);
    let v = with(v, "js_url_get_host", DOUBLE, [I64]@);
    let v = with(v, "js_url_get_hostname", DOUBLE, [I64]@);
    let v = with(v, "js_url_get_href", DOUBLE, [I64]@);
    let v = with(v, "js_url_get_origin", DOUBLE, [I64]@);
    let v = with(v, "js_url_get_pathname", DOUBLE, [I64]@);
    let v = with(v, "js_url_get_port", DOUBLE, [I64]@);
    let v = with(v, "js_url_get_protocol", DOUBLE, [I64]@);
    let v = with(v, "js_url_get_search", DOUBLE, [I64]@);
    let v = with(v, "js_url_get_search_params", DOUBLE, [I64]@);
    let v = with(v, "js_url_new", I64, [I64]@);
    let v = with(v, "js_url_new_with_base", I64, [I64, I64]@);
    let v = with(v, "js_url_search_params_append", VOID, [I64, I64, I64]@);
    let v = with(v, "js_url_search_params_delete", VOID, [I64, I64]@);
    let v = with(v, "js_url_search_params_get", I64, [I64, I64]@);
    let v = with(v, "js_url_search_params_get_all", DOUBLE, [I64, I64]@);
    let v = with(v, "js_url_search_params_has", DOUBLE, [I64, I64]@);
    let v = with(v, "js_url_search_params_new", I64, [I64]@);
    let v = with(v, "js_url_search_params_new_empty", I64, []@);
    let v = with(v, "js_url_search_params_set", VOID, [I64, I64, I64]@);
    let v = with(v, "js_url_search_params_to_string", I64, [I64]@);
    v
}

fn declare_urls(m: &mut LlModule)
    ensures
        declared(final(m).declarations@) == urls(declared(old(m).declarations@)),
        old(m).wf() ==> final(m).wf(),
        final(m).host == old(m).host,
        final(m).functions == old(m).functions,
{
    m.declare_function("js_url_file_url_to_path", DOUBLE, &[DOUBLE]);
    m.declare_function("js_url_get_hash", DOUBLE, &[I64]);
    m.declare_function("js_url_get_host", DOUBLE, &[I64]);
    m.declare_function("js_url_get_hostname", DOUBLE, &[I64]);
    m.declare_function("js_url_get_href", DOUBLE, &[I64]);
    m.declare_function("js_url_get_origin", DOUBLE, &[I64]);
    m.declare_function("js_url_get_pathname", DOUBLE, &[I64]);
    m.declare_function("js_url_get_port", DOUBLE, &[I64]);
    m.declare_function("js_url_get_protocol", DOUBLE, &[I64]);
    m.declare_function("js_url_get_search", DOUBLE, &[I64]);
    m.declare_function("js_url_get_search_params", DOUBLE, &[I64]);
    m.declare_function("js_url_new", I64, &[I64]);
    m.declare_function("js_url_new_with_base", I64, &[I64, I64]);
    m.declare_function("js_url_search_params_append", VOID, &[I64, I64, I64]);
    m.declare_function("js_url_search_params_delete", VOID, &[I64, I64]);
    m.declare_function("js_url_search_params_get", I64, &[I64, I64]);
    m.declare_function("js_url_search_params_get_all", DOUBLE, &[I64, I64]);
    m.declare_function("js_url_search_params_has", DOUBLE, &[I64, I64]);
    m.declare_function("js_url_search_params_new", I64, &[I64]);
    m.declare_function("js_url_search_params_new_empty", I64, &[]);
    m.declare_function("js_url_search_params_set", VOID, &[I64, I64, I64]);
    m.declare_function("js_url_search_params_to_string", I64, &[I64]);
}

/// Web sockets, SQLite and the operating system.
pub open spec fn sockets(v: Seq<DeclarationView>) -> Seq<DeclarationView> {
    let v = with(v, "js_ws_close", VOID, [I64]@);
    let v = with(v, "js_ws_connect", I64, [I64]@);
    let v = with(v, "js_ws_connect_start", DOUBLE, [DOUBLE]@);
    let v = with(v, "js_ws_handle_to_i64", I64, [DOUBLE]@);
    let v = with(v, "js_ws_is_open", DOUBLE, [I64]@);
    let v = with(v, "js_ws_message_count", DOUBLE, [I64]@);
    let v = with(v, "js_ws_on", I64, [I64, I64, I64]@);
    let v = with(v, "js_ws_receive", I64, [I64]@);
    let v = with(v, "js_ws_send", VOID, [I64, I64]@);
    let v = with(v, "js_ws_server_close", VOID, [I64]@);
    let v = with(v, "js_ws_server_new", I64, [DOUBLE]@);
    let v = with(v, "js_ws_wait_for_message", I64, [I64, DOUBLE]@);
    let v = with(v, "js_sqlite_close", VOID, [I64]@);
    let v = with(v, "js_sqlite_exec", VOID, [I64, I64]@);
    let v = with(v, "js_sqlite_open", I64, [I64]@);
    let v = with(v, "js_sqlite_pragma", I64, [I64, I64, I64]@);
    let v = with(v, "js_sqlite_prepare", I64, [I64, I64]@);
    let v = with(v, "js_sqlite_stmt_all", I64, [I64, I64]@);
    let v = with(v, "js_sqlite_stmt_get", I64, [I64, I64]@);
    let v = with(v, "js_sqlite_stmt_run", I64, [I64, I64]@);
    let v = with(v, "js_sqlite_transaction", I64, [I64, I64]@);
    let v = with(v, "js_sqlite_transaction_commit", VOID, [I64]@);
    let v = with(v, "js_sqlite_transaction_rollback", VOID, [I64]@);
    let v = with(v, "js_os_cpus", I64, []@);
    let v = with(v, "js_os_freemem", DOUBLE, []@);
    let v = with(v, "js_os_homedir", I64, []@);
    let v = with(v, "js_os_network_interfaces", I64, []@);
    let v = with(v, "js_os_tmpdir", I64, []@);
    let v = with(v, "js_os_totalmem", DOUBLE, []@);
    let v = with(v, "js_os_uptime", DOUBLE, []@);
    let v = with(v, "js_os_user_info", I64, []@);
    v
}

fn declare_sockets(m: &mut LlModule)
    ensures
        declared(final(m).declarations@) == sockets(declared(old(m).declarations@)),
        old(m).wf() ==> final(m).wf(),
        final(m).host == old(m).host,
        final(m).functions == old(m).functions,
{
    m.declare_function("js_ws_close", VOID, &[I64]);
    m.declare_function("js_ws_connect", I64, &[I64]);
    m.declare_function("js_ws_connect_start", DOUBLE, &[DOUBLE]);
    m.declare_function("js_ws_handle_to_i64", I64, &[DOUBLE]);
    m.declare_function("js_ws_is_open", DOUBLE, &[I64]);
    m.declare_function("js_ws_message_count", DOUBLE, &[I64]);
    m.declare_function("js_ws_on", I64, &[I64, I64, I64]);
    m.declare_function("js_ws_receive", I64, &[I64]);
    m.declare_function("js_ws_send", VOID, &[I64, I64]);
    m.declare_function("js_ws_server_close", VOID, &[I64]);
    m.declare_function("js_ws_server_new", I64, &[DOUBLE]);
    m.declare_function("js_ws_wait_for_message", I64, &[I64, DOUBLE]);
    m.declare_function("js_sqlite_close", VOID, &[I64]);
    m.declare_function("js_sqlite_exec", VOID, &[I64, I64]);
    m.declare_function("js_sqlite_open", I64, &[I64]);
    m.declare_function("js_sqlite_pragma", I64, &[I64, I64, I64]);
    m.declare_function("js_sqlite_prepare", I64, &[I64, I64]);
    m.declare_function("js_sqlite_stmt_all", I64, &[I64, I64]);
    m.declare_function("js_sqlite_stmt_get", I64, &[I64, I64]);
    m.declare_function("js_sqlite_stmt_run", I64, &[I64, I64]);
    m.declare_function("js_sqlite_transaction", I64, &[I64, I64]);
    m.declare_function("js_sqlite_transaction_commit", VOID, &[I64]);
    m.declare_function("js_sqlite_transaction_rollback", VOID, &[I64]);
    m.declare_function("js_os_cpus", I64, &[]);
    m.declare_function("js_os_freemem", DOUBLE, &[]);
    m.declare_function("js_os_homedir", I64, &[]);
    m.declare_function("js_os_network_interfaces", I64, &[]);
    m.declare_function("js_os_tmpdir", I64, &[]);
    m.declare_function("js_os_totalmem", DOUBLE, &[]);
    m.declare_function("js_os_uptime", DOUBLE, &[]);
    m.declare_function("js_os_user_info", I64, &[]);
}

/// Cryptography, identifiers, command lines and environment files.
pub open spec fn crypto(v: Seq<DeclarationView>) -> Seq<DeclarationView> {
    let v = with(v, "js_crypto_aes256_decrypt", I64, [I64, I64, I64]@);
    let v = with(v, "js_crypto_aes256_encrypt", I64, [I64, I64, I64]@);
    let v = with(v, "js_crypto_aes256_gcm_decrypt", I64, [I64, I64, I64]@);
    let v = with(v, "js_crypto_aes256_gcm_encrypt", I64, [I64, I64, I64]@);
    let v = with(v, "js_crypto_hkdf_sha256", I64, [I64, I64, I64, DOUBLE]@);
    let v = with(v, "js_crypto_pbkdf2", I64, [I64, I64, DOUBLE, DOUBLE]@);
    let v = with(v, "js_crypto_random_bytes_hex", I64, [DOUBLE]@);
    let v = with(v, "js_crypto_random_nonce", I64, []@);
    let v = with(v, "js_crypto_scrypt", I64, [I64, I64, DOUBLE]@);
    let v = with(v, "js_crypto_scrypt_custom", I64, [I64, I64, DOUBLE, DOUBLE, DOUBLE, DOUBLE]@);
    let v = with(v, "js_crypto_x25519_keypair", I64, []@);
    let v = with(v, "js_crypto_x25519_shared_secret", I64, [I64, I64]@);
    let v = with(v, "js_keccak256_native", I64, [I64]@);
    let v = with(v, "js_keccak256_native_bytes", I64, [I64]@);
    let v = with(v, "js_nanoid", I64, [DOUBLE]@);
    let v = with(v, "js_nanoid_custom", I64, [I64, DOUBLE]@);
    let v = with(v, "js_commander_action", I64, [I64, I64]@);
    let v = with(v, "js_commander_command", I64, [I64, I64]@);
    let v = with(v, "js_commander_description", I64, [I64, I64]@);
    let v = with(v, "js_commander_get_option", I64, [I64, I64]@);
    let v = with(v, "js_commander_get_option_bool", DOUBLE, [I64, I64]@);
    let v = with(v, "js_commander_get_option_number", DOUBLE, [I64, I64]@);
    let v = with(v, "js_commander_name", I64, [I64, I64]@);
    let v = with(v, "js_commander_new", I64, []@);
    let v = with(v, "js_commander_option", I64, [I64, I64, I64, I64]@);
    let v = with(v, "js_commander_opts", I64, [I64]@);
    let v = with(v, "js_commander_parse", I64, [I64, DOUBLE]@);
    let v = with(v, "js_commander_required_option", I64, [I64, I64, I64, I64]@);
    let v = with(v, "js_commander_version", I64, [I64, I64]@);
    let v = with(v, "js_dotenv_config", DOUBLE, []@);
    let v = with(v, "js_dotenv_config_path", DOUBLE, [I64]@);
    let v = with(v, "js_dotenv_parse", I64, [I64]@);
    v
}

fn declare_crypto(m: &mut LlModule)
    ensures
        declared(final(m).declarations@) == crypto(declared(old(m).declarations@)),
        old(m).wf() ==> final(m).wf(),
        final(m).host == old(m).host,
        final(m).functions == old(m).functions,
{
    m.declare_function("js_crypto_aes256_decrypt", I64, &[I64, I64, I64]);
    m.declare_function("js_crypto_aes256_encrypt", I64, &[I64, I64, I64]);
    m.declare_function("js_crypto_aes256_gcm_decrypt", I64, &[I64, I64, I64]);
    m.declare_function("js_crypto_aes256_gcm_encrypt", I64, &[I64, I64, I64]);
    m.declare_function("js_crypto_hkdf_sha256", I64, &[I64, I64, I64, DOUBLE]);
    m.declare_function("js_crypto_pbkdf2", I64, &[I64, I64, DOUBLE, DOUBLE]);
    m.declare_function("js_crypto_random_bytes_hex", I64, &[DOUBLE]);
    m.declare_function("js_crypto_random_nonce", I64, &[]);
    m.declare_function("js_crypto_scrypt", I64, &[I64, I64, DOUBLE]);
    m.declare_function(
        "js_crypto_scrypt_custom",
        I64,
        &[I64, I64, DOUBLE, DOUBLE, DOUBLE, DOUBLE],
    );
    m.declare_function("js_crypto_x25519_keypair", I64, &[]);
    m.declare_function("js_crypto_x25519_shared_secret", I64, &[I64, I64]);
    m.declare_function("js_keccak256_native", I64, &[I64]);
    m.declare_function("js_keccak256_native_bytes", I64, &[I64]);
    m.declare_function("js_nanoid", I64, &[DOUBLE]);
    m.declare_function("js_nanoid_custom", I64, &[I64, DOUBLE]);
    m.declare_function("js_commander_action", I64, &[I64, I64]);
    m.declare_function("js_commander_command", I64, &[I64, I64]);
    m.declare_function("js_commander_description", I64, &[I64, I64]);
    m.declare_function("js_commander_get_option", I64, &[I64, I64]);
    m.declare_function("js_commander_get_option_bool", DOUBLE, &[I64, I64]);
    m.declare_function("js_commander_get_option_number", DOUBLE, &[I64, I64]);
    m.declare_function("js_commander_name", I64, &[I64, I64]);
    m.declare_function("js_commander_new", I64, &[]);
    m.declare_function("js_commander_option", I64, &[I64, I64, I64, I64]);
    m.declare_function("js_commander_opts", I64, &[I64]);
    m.declare_function("js_commander_parse", I64, &[I64, DOUBLE]);
    m.declare_function("js_commander_required_option", I64, &[I64, I64, I64, I64]);
    m.declare_function("js_commander_version", I64, &[I64, I64]);
    m.declare_function("js_dotenv_config", DOUBLE, &[]);
    m.declare_function("js_dotenv_config_path", DOUBLE, &[I64]);
    m.declare_function("js_dotenv_parse", I64, &[I64]);
}

/// Date libraries.
pub open spec fn date_libraries(v: Seq<DeclarationView>) -> Seq<DeclarationView> {
    let v = with(v, "js_datefns_add_days", DOUBLE, [DOUBLE, DOUBLE]@);
    let v = with(v, "js_datefns_add_months", DOUBLE, [DOUBLE, DOUBLE]@);
    let v = with(v, "js_datefns_add_years", DOUBLE, [DOUBLE, DOUBLE]@);
    let v = with(v, "js_datefns_difference_in_days", DOUBLE, [DOUBLE, DOUBLE]@);
    let v = with(v, "js_datefns_difference_in_hours", DOUBLE, [DOUBLE, DOUBLE]@);
    let v = with(v, "js_datefns_difference_in_minutes", DOUBLE, [DOUBLE, DOUBLE]@);
    let v = with(v, "js_datefns_end_of_day", DOUBLE, [DOUBLE]@);
    let v = with(v, "js_datefns_format", I64, [DOUBLE, I64]@);
    let v = with(v, "js_datefns_is_after", DOUBLE, [DOUBLE, DOUBLE]@);
    let v = with(v, "js_datefns_is_before", DOUBLE, [DOUBLE, DOUBLE]@);
    let v = with(v, "js_datefns_parse_iso", DOUBLE, [I64]@);
    let v = with(v, "js_datefns_start_of_day", DOUBLE, [DOUBLE]@);
    let v = with(v, "js_dayjs_add", DOUBLE, [I64, DOUBLE, I64]@);
    let v = with(v, "js_dayjs_date", DOUBLE, [I64]@);
    let v = with(v, "js_dayjs_day", DOUBLE, [I64]@);
    let v = with(v, "js_dayjs_diff", DOUBLE, [I64, I64, I64]@);
    let v = with(v, "js_dayjs_end_of", DOUBLE, [I64, I64]@);
    let v = with(v, "js_dayjs_format", I64, [I64, I64]@);
    let v = with(v, "js_dayjs_from_timestamp", DOUBLE, [DOUBLE]@);
    let v = with(v, "js_dayjs_hour", DOUBLE, [I64]@);
    let v = with(v, "js_dayjs_is_after", DOUBLE, [I64, I64]@);
    let v = with(v, "js_dayjs_is_before", DOUBLE, [I64, I64]@);
    let v = with(v, "js_dayjs_is_same", DOUBLE, [I64, I64]@);
    let v = with(v, "js_dayjs_is_valid", DOUBLE, [I64]@);
    let v = with(v, "js_dayjs_millisecond", DOUBLE, [I64]@);
    let v = with(v, "js_dayjs_minute", DOUBLE, [I64]@);
    let v = with(v, "js_dayjs_month", DOUBLE, [I64]@);
    let v = with(v, "js_dayjs_now", DOUBLE, []@);
    let v = with(v, "js_dayjs_parse", DOUBLE, [I64]@);
    let v = with(v, "js_dayjs_second", DOUBLE, [I64]@);
    let v = with(v, "js_dayjs_start_of", DOUBLE, [I64, I64]@);
    let v = with(v, "js_dayjs_subtract", DOUBLE, [I64, DOUBLE, I64]@);
    let v = with(v, "js_dayjs_to_iso_string", I64, [I64]@);
    let v = with(v, "js_dayjs_unix", DOUBLE, [I64]@);
    let v = with(v, "js_dayjs_value_of", DOUBLE, [I64]@);
    let v = with(v, "js_dayjs_year", DOUBLE, [I64]@);
    let v = with(v, "js_moment_add", I64, [I64, DOUBLE, I64]@);
    let v = with(v, "js_moment_date", DOUBLE, [I64]@);
    let v = with(v, "js_moment_day", DOUBLE, [I64]@);
    let v = with(v, "js_moment_diff", DOUBLE, [I64, I64, I64]@);
    let v = with(v, "js_moment_end_of", I64, [I64, I64]@);
    let v = with(v, "js_moment_format", I64, [I64, I64]@);
    let v = with(v, "js_moment_from_timestamp", I64, [DOUBLE]@);
    let v = with(v, "js_moment_hour", DOUBLE, [I64]@);
    let v = with(v, "js_moment_is_valid", DOUBLE, [I64]@);
    let v = with(v, "js_moment_millisecond", DOUBLE, [I64]@);
    let v = with(v, "js_moment_minute", DOUBLE, [I64]@);
    let v = with(v, "js_moment_month", DOUBLE, [I64]@);
    let v = with(v, "js_moment_now", I64, []@);
    let v = with(v, "js_moment_parse", I64, [I64]@);
    let v = with(v, "js_moment_second", DOUBLE, [I64]@);
    let v = with(v, "js_moment_start_of", I64, [I64, I64]@);
    let v = with(v, "js_moment_subtract", I64, [I64, DOUBLE, I64]@);
    let v = with(v, "js_moment_unix", DOUBLE, [I64]@);
    let v = with(v, "js_moment_value_of", DOUBLE, [I64]@);
    let v = with(v, "js_moment_year", DOUBLE, [I64]@);
    v
}

fn declare_date_libraries(m: &mut LlModule)
    ensures
        declared(final(m).declarations@) == date_libraries(declared(old(m).declarations@)),
        old(m).wf() ==> final(m).wf(),
        final(m).host == old(m).host,
        final(m).functions == old(m).functions,
{
    m.declare_function("js_datefns_add_days", DOUBLE, &[DOUBLE, DOUBLE]);
    m.declare_function("js_datefns_add_months", DOUBLE, &[DOUBLE, DOUBLE]);
    m.declare_function("js_datefns_add_years", DOUBLE, &[DOUBLE, DOUBLE]);
    m.declare_function("js_datefns_difference_in_days", DOUBLE, &[DOUBLE, DOUBLE]);
    m.declare_function("js_datefns_difference_in_hours", DOUBLE, &[DOUBLE, DOUBLE]);
    m.declare_function("js_datefns_difference_in_minutes", DOUBLE, &[DOUBLE, DOUBLE]);
    m.declare_function("js_datefns_end_of_day", DOUBLE, &[DOUBLE]);
    m.declare_function("js_datefns_format", I64, &[DOUBLE, I64]);
    m.declare_function("js_datefns_is_after", DOUBLE, &[DOUBLE, DOUBLE]);
    m.declare_function("js_datefns_is_before", DOUBLE, &[DOUBLE, DOUBLE]);
    m.declare_function("js_datefns_parse_iso", DOUBLE, &[I64]);
    m.declare_function("js_datefns_start_of_day", DOUBLE, &[DOUBLE]);
    m.declare_function("js_dayjs_add", DOUBLE, &[I64, DOUBLE, I64]);
    m.declare_function("js_dayjs_date", DOUBLE, &[I64]);
    m.declare_function("js_dayjs_day", DOUBLE, &[I64]);
    m.declare_function("js_dayjs_diff", DOUBLE, &[I64, I64, I64]);
    m.declare_function("js_dayjs_end_of", DOUBLE, &[I64, I64]);
    m.declare_function("js_dayjs_format", I64, &[I64, I64]);
    m.declare_function("js_dayjs_from_timestamp", DOUBLE, &[DOUBLE]);
    m.declare_function("js_dayjs_hour", DOUBLE, &[I64]);
    m.declare_function("js_dayjs_is_after", DOUBLE, &[I64, I64]);
    m.declare_function("js_dayjs_is_before", DOUBLE, &[I64, I64]);
    m.declare_function("js_dayjs_is_same", DOUBLE, &[I64, I64]);
    m.declare_function("js_dayjs_is_valid", DOUBLE, &[I64]);
    m.declare_function("js_dayjs_millisecond", DOUBLE, &[I64]);
    m.declare_function("js_dayjs_minute", DOUBLE, &[I64]);
    m.declare_function("js_dayjs_month", DOUBLE, &[I64]);
    m.declare_function("js_dayjs_now", DOUBLE, &[]);
    m.declare_function("js_dayjs_parse", DOUBLE, &[I64]);
    m.declare_function("js_dayjs_second", DOUBLE, &[I64]);
    m.declare_function("js_dayjs_start_of", DOUBLE, &[I64, I64]);
    m.declare_function("js_dayjs_subtract", DOUBLE, &[I64, DOUBLE, I64]);
    m.declare_function("js_dayjs_to_iso_string", I64, &[I64]);
    m.declare_function("js_dayjs_unix", DOUBLE, &[I64]);
    m.declare_function("js_dayjs_value_of", DOUBLE, &[I64]);
    m.declare_function("js_dayjs_year", DOUBLE, &[I64]);
    m.declare_function("js_moment_add", I64, &[I64, DOUBLE, I64]);
    m.declare_function("js_moment_date", DOUBLE, &[I64]);
    m.declare_function("js_moment_day", DOUBLE, &[I64]);
    m.declare_function("js_moment_diff", DOUBLE, &[I64, I64, I64]);
    m.declare_function("js_moment_end_of", I64, &[I64, I64]);
    m.declare_function("js_moment_format", I64, &[I64, I64]);
    m.declare_function("js_moment_from_timestamp", I64, &[DOUBLE]);
    m.declare_function("js_moment_hour", DOUBLE, &[I64]);
    m.declare_function("js_moment_is_valid", DOUBLE, &[I64]);
    m.declare_function("js_moment_millisecond", DOUBLE, &[I64]);
    m.declare_function("js_moment_minute", DOUBLE, &[I64]);
    m.declare_function("js_moment_month", DOUBLE, &[I64]);
    m.declare_function("js_moment_now", I64, &[]);
    m.declare_function("js_moment_parse", I64, &[I64]);
    m.declare_function("js_moment_second", DOUBLE, &[I64]);
    m.declare_function("js_moment_start_of", I64, &[I64, I64]);
    m.declare_function("js_moment_subtract", I64, &[I64, DOUBLE, I64]);
    m.declare_function("js_moment_unix", DOUBLE, &[I64]);
    m.declare_function("js_moment_value_of", DOUBLE, &[I64]);
    m.declare_function("js_moment_year", DOUBLE, &[I64]);
}

/// Decimal arithmetic.
pub open spec fn decimals(v: Seq<DeclarationView>) -> Seq<DeclarationView> {
    let v = with(v, "js_decimal_abs", I64, [I64]@);
    let v = with(v, "js_decimal_ceil", I64, [I64]@);
    let v = with(v, "js_decimal_cmp", DOUBLE, [I64, I64]@);
    let v = with(v, "js_decimal_cmp_value", DOUBLE, [I64, DOUBLE]@);
    let v = with(v, "js_decimal_coerce_to_handle", I64, [DOUBLE]@);
    let v = with(v, "js_decimal_div", I64, [I64, I64]@);
    let v = with(v, "js_decimal_div_number", I64, [I64, DOUBLE]@);
    let v = with(v, "js_decimal_div_value", I64, [I64, DOUBLE]@);
    let v = with(v, "js_decimal_eq", DOUBLE, [I64, I64]@);
    let v = with(v, "js_decimal_eq_value", DOUBLE, [I64, DOUBLE]@);
    let v = with(v, "js_decimal_floor", I64, [I64]@);
    let v = with(v, "js_decimal_from_number", I64, [DOUBLE]@);
    let v = with(v, "js_decimal_from_string", I64, [I64]@);
    let v = with(v, "js_decimal_gt", DOUBLE, [I64, I64]@);
    let v = with(v, "js_decimal_gt_value", DOUBLE, [I64, DOUBLE]@);
    let v = with(v, "js_decimal_gte", DOUBLE, [I64, I64]@);
    let v = with(v, "js_decimal_gte_value", DOUBLE, [I64, DOUBLE]@);
    let v = with(v, "js_decimal_is_negative", DOUBLE, [I64]@);
    let v = with(v, "js_decimal_is_positive", DOUBLE, [I64]@);
    let v = with(v, "js_decimal_is_zero", DOUBLE, [I64]@);
    let v = with(v, "js_decimal_lt", DOUBLE, [I64, I64]@);
    let v = with(v, "js_decimal_lt_value", DOUBLE, [I64, DOUBLE]@);
    let v = with(v, "js_decimal_lte", DOUBLE, [I64, I64]@);
    let v = with(v, "js_decimal_lte_value", DOUBLE, [I64, DOUBLE]@);
    let v = with(v, "js_decimal_minus", I64, [I64, I64]@);
    let v = with(v, "js_decimal_minus_number", I64, [I64, DOUBLE]@);
    let v = with(v, "js_decimal_minus_value", I64, [I64, DOUBLE]@);
    let v = with(v, "js_decimal_mod", I64, [I64, I64]@);
    let v = with(v, "js_decimal_mod_value", I64, [I64, DOUBLE]@);
    let v = with(v, "js_decimal_neg", I64, [I64]@);
    let v = with(v, "js_decimal_plus", I64, [I64, I64]@);
    let v = with(v, "js_decimal_plus_number", I64, [I64, DOUBLE]@);
    let v = with(v, "js_decimal_plus_value", I64, [I64, DOUBLE]@);
    let v = with(v, "js_decimal_pow", I64, [I64, DOUBLE]@);
    let v = with(v, "js_decimal_round", I64, [I64]@);
    let v = with(v, "js_decimal_sqrt", I64, [I64]@);
    let v = with(v, "js_decimal_times", I64, [I64, I64]@);
    let v = with(v, "js_decimal_times_number", I64, [I64, DOUBLE]@);
    let v = with(v, "js_decimal_times_value", I64, [I64, DOUBLE]@);
    let v = with(v, "js_decimal_to_fixed", I64, [I64, DOUBLE]@);
    let v = with(v, "js_decimal_to_number", DOUBLE, [I64]@);
    let v = with(v, "js_decimal_to_string", I64, [I64]@);
    v
}

fn declare_decimals(m: &mut LlModule)
    ensures
        declared(final(m).declarations@) == decimals(declared(old(m).declarations@)),
        old(m).wf() ==> final(m).wf(),
        final(m).host == old(m).host,
        final(m).functions == old(m).functions,
{
    m.declare_function("js_decimal_abs", I64, &[I64]);
    m.declare_function("js_decimal_ceil", I64, &[I64]);
    m.declare_function("js_decimal_cmp", DOUBLE, &[I64, I64]);
    m.declare_function("js_decimal_cmp_value", DOUBLE, &[I64, DOUBLE]);
    m.declare_function("js_decimal_coerce_to_handle", I64, &[DOUBLE]);
    m.declare_function("js_decimal_div", I64, &[I64, I64]);
    m.declare_function("js_decimal_div_number", I64, &[I64, DOUBLE]);
    m.declare_function("js_decimal_div_value", I64, &[I64, DOUBLE]);
    m.declare_function("js_decimal_eq", DOUBLE, &[I64, I64]);
    m.declare_function("js_decimal_eq_value", DOUBLE, &[I64, DOUBLE]);
    m.declare_function("js_decimal_floor", I64, &[I64]);
    m.declare_function("js_decimal_from_number", I64, &[DOUBLE]);
    m.declare_function("js_decimal_from_string", I64, &[I64]);
    m.declare_function("js_decimal_gt", DOUBLE, &[I64, I64]);
    m.declare_function("js_decimal_gt_value", DOUBLE, &[I64, DOUBLE]);
    m.declare_function("js_decimal_gte", DOUBLE, &[I64, I64]);
    m.declare_function("js_decimal_gte_value", DOUBLE, &[I64, DOUBLE]);
    m.declare_function("js_decimal_is_negative", DOUBLE, &[I64]);
    m.declare_function("js_decimal_is_positive", DOUBLE, &[I64]);
    m.declare_function("js_decimal_is_zero", DOUBLE, &[I64]);
    m.declare_function("js_decimal_lt", DOUBLE, &[I64, I64]);
    m.declare_function("js_decimal_lt_value", DOUBLE, &[I64, DOUBLE]);
    m.declare_function("js_decimal_lte", DOUBLE, &[I64, I64]);
    m.declare_function("js_decimal_lte_value", DOUBLE, &[I64, DOUBLE]);
    m.declare_function("js_decimal_minus", I64, &[I64, I64]);
    m.declare_function("js_decimal_minus_number", I64, &[I64, DOUBLE]);
    m.declare_function("js_decimal_minus_value", I64, &[I64, DOUBLE]);
    m.declare_function("js_decimal_mod", I64, &[I64, I64]);
    m.declare_function("js_decimal_mod_value", I64, &[I64, DOUBLE]);
    m.declare_function("js_decimal_neg", I64, &[I64]);
    m.declare_function("js_decimal_plus", I64, &[I64, I64]);
    m.declare_function("js_decimal_plus_number", I64, &[I64, DOUBLE]);
    m.declare_function("js_decimal_plus_value", I64, &[I64, DOUBLE]);
    m.declare_function("js_decimal_pow", I64, &[I64, DOUBLE]);
    m.declare_function("js_decimal_round", I64, &[I64]);
    m.declare_function("js_decimal_sqrt", I64, &[I64]);
    m.declare_function("js_decimal_times", I64, &[I64, I64]);
    m.declare_function("js_decimal_times_number", I64, &[I64, DOUBLE]);
    m.declare_function("js_decimal_times_value", I64, &[I64, DOUBLE]);
    m.declare_function("js_decimal_to_fixed", I64, &[I64, DOUBLE]);
    m.declare_function("js_decimal_to_number", DOUBLE, &[I64]);
    m.declare_function("js_decimal_to_string", I64, &[I64]);
}

/// Ether units and collection utilities.
pub open spec fn utilities(v: Seq<DeclarationView>) -> Seq<DeclarationView> {
    let v = with(v, "js_ethers_format_ether", I64, [I64]@);
    let v = with(v, "js_ethers_format_units", I64, [I64, DOUBLE]@);
    let v = with(v, "js_ethers_get_address", I64, [I64]@);
    let v = with(v, "js_ethers_parse_ether", I64, [I64]@);
    let v = with(v, "js_ethers_parse_units", I64, [I64, DOUBLE]@);
    let v = with(v, "js_lodash_camel_case", I64, [I64]@);
    let v = with(v, "js_lodash_capitalize", I64, [I64]@);
    let v = with(v, "js_lodash_chunk", I64, [I64, DOUBLE]@);
    let v = with(v, "js_lodash_clamp", DOUBLE, [DOUBLE, DOUBLE, DOUBLE]@);
    let v = with(v, "js_lodash_compact", I64, [I64]@);
    let v = with(v, "js_lodash_concat", I64, [I64, I64]@);
    let v = with(v, "js_lodash_difference", I64, [I64, I64]@);
    let v = with(v, "js_lodash_drop", I64, [I64, DOUBLE]@);
    let v = with(v, "js_lodash_drop_right", I64, [I64, DOUBLE]@);
    let v = with(v, "js_lodash_ends_with", DOUBLE, [I64, I64]@);
    let v = with(v, "js_lodash_escape", I64, [I64]@);
    let v = with(v, "js_lodash_first", DOUBLE, [I64]@);
    let v = with(v, "js_lodash_flatten", I64, [I64]@);
    let v = with(v, "js_lodash_in_range", DOUBLE, [DOUBLE, DOUBLE, DOUBLE]@);
    let v = with(v, "js_lodash_includes", DOUBLE, [I64, I64]@);
    let v = with(v, "js_lodash_initial", I64, [I64]@);
    let v = with(v, "js_lodash_kebab_case", I64, [I64]@);
    let v = with(v, "js_lodash_last", DOUBLE, [I64]@);
    let v = with(v, "js_lodash_lower_case", I64, [I64]@);
    let v = with(v, "js_lodash_lower_first", I64, [I64]@);
    let v = with(v, "js_lodash_pad", I64, [I64, DOUBLE]@);
    let v = with(v, "js_lodash_pad_end", I64, [I64, DOUBLE]@);
    let v = with(v, "js_lodash_pad_start", I64, [I64, DOUBLE]@);
    let v = with(v, "js_lodash_random", DOUBLE, [DOUBLE, DOUBLE]@);
    let v = with(v, "js_lodash_repeat", I64, [I64, DOUBLE]@);
    let v = with(v, "js_lodash_replace", I64, [I64, I64, I64]@);
    let v = with(v, "js_lodash_reverse", I64, [I64]@);
    let v = with(v, "js_lodash_size", DOUBLE, [I64]@);
    let v = with(v, "js_lodash_snake_case", I64, [I64]@);
    let v = with(v, "js_lodash_split", I64, [I64, I64]@);
    let v = with(v, "js_lodash_start_case", I64, [I64]@);
    let v = with(v, "js_lodash_starts_with", DOUBLE, [I64, I64]@);
    let v = with(v, "js_lodash_tail", I64, [I64]@);
    let v = with(v, "js_lodash_take", I64, [I64, DOUBLE]@);
    let v = with(v, "js_lodash_take_right", I64, [I64, DOUBLE]@);
    let v = with(v, "js_lodash_trim", I64, [I64]@);
    let v = with(v, "js_lodash_trim_end", I64, [I64]@);
    let v = with(v, "js_lodash_trim_start", I64, [I64]@);
    let v = with(v, "js_lodash_truncate", I64, [I64, DOUBLE]@);
    let v = with(v, "js_lodash_unescape", I64, [I64]@);
    let v = with(v, "js_lodash_uniq", I64, [I64]@);
    let v = with(v, "js_lodash_upper_case", I64, [I64]@);
    let v = with(v, "js_lodash_upper_first", I64, [I64]@);
    v
}

fn declare_utilities(m: &mut LlModule)
    ensures
        declared(final(m).declarations@) == utilities(declared(old(m).declarations@)),
        old(m).wf() ==> final(m).wf(),
        final(m).host == old(m).host,
        final(m).functions == old(m).functions,
{
    m.declare_function("js_ethers_format_ether", I64, &[I64]);
    m.declare_function("js_ethers_format_units", I64, &[I64, DOUBLE]);
    m.declare_function("js_ethers_get_address", I64, &[I64]);
    m.declare_function("js_ethers_parse_ether", I64, &[I64]);
    m.declare_function("js_ethers_parse_units", I64, &[I64, DOUBLE]);
    m.declare_function("js_lodash_camel_case", I64, &[I64]);
    m.declare_function("js_lodash_capitalize", I64, &[I64]);
    m.declare_function("js_lodash_chunk", I64, &[I64, DOUBLE]);
    m.declare_function("js_lodash_clamp", DOUBLE, &[DOUBLE, DOUBLE, DOUBLE]);
    m.declare_function("js_lodash_compact", I64, &[I64]);
    m.declare_function("js_lodash_concat", I64, &[I64, I64]);
    m.declare_function("js_lodash_difference", I64, &[I64, I64]);
    m.declare_function("js_lodash_drop", I64, &[I64, DOUBLE]);
    m.declare_function("js_lodash_drop_right", I64, &[I64, DOUBLE]);
    m.declare_function("js_lodash_ends_with", DOUBLE, &[I64, I64]);
    m.declare_function("js_lodash_escape", I64, &[I64]);
    m.declare_function("js_lodash_first", DOUBLE, &[I64]);
    m.declare_function("js_lodash_flatten", I64, &[I64]);
    m.declare_function("js_lodash_in_range", DOUBLE, &[DOUBLE, DOUBLE, DOUBLE]);
    m.declare_function("js_lodash_includes", DOUBLE, &[I64, I64]);
    m.declare_function("js_lodash_initial", I64, &[I64]);
    m.declare_function("js_lodash_kebab_case", I64, &[I64]);
    m.declare_function("js_lodash_last", DOUBLE, &[I64]);
    m.declare_function("js_lodash_lower_case", I64, &[I64]);
    m.declare_function("js_lodash_lower_first", I64, &[I64]);
    m.declare_function("js_lodash_pad", I64, &[I64, DOUBLE]);
    m.declare_function("js_lodash_pad_end", I64, &[I64, DOUBLE]);
    m.declare_function("js_lodash_pad_start", I64, &[I64, DOUBLE]);
    m.declare_function("js_lodash_random", DOUBLE, &[DOUBLE, DOUBLE]);
    m.declare_function("js_lodash_repeat", I64, &[I64, DOUBLE]);
    m.declare_function("js_lodash_replace", I64, &[I64, I64, I64]);
    m.declare_function("js_lodash_reverse", I64, &[I64]);
    m.declare_function("js_lodash_size", DOUBLE, &[I64]);
    m.declare_function("js_lodash_snake_case", I64, &[I64]);
    m.declare_function("js_lodash_split", I64, &[I64, I64]);
    m.declare_function("js_lodash_start_case", I64, &[I64]);
    m.declare_function("js_lodash_starts_with", DOUBLE, &[I64, I64]);
    m.declare_function("js_lodash_tail", I64, &[I64]);
    m.declare_function("js_lodash_take", I64, &[I64, DOUBLE]);
    m.declare_function("js_lodash_take_right", I64, &[I64, DOUBLE]);
    m.declare_function("js_lodash_trim", I64, &[I64]);
    m.declare_function("js_lodash_trim_end", I64, &[I64]);
    m.declare_function("js_lodash_trim_start", I64, &[I64]);
    m.declare_function("js_lodash_truncate", I64, &[I64, DOUBLE]);
    m.declare_function("js_lodash_unescape", I64, &[I64]);
    m.declare_function("js_lodash_uniq", I64, &[I64]);
    m.declare_function("js_lodash_upper_case", I64, &[I64]);
    m.declare_function("js_lodash_upper_first", I64, &[I64]);
}

/// Caches and event emitters.
pub open spec fn caches(v: Seq<DeclarationView>) -> Seq<DeclarationView> {
    let v = with(v, "js_lru_cache_clear", VOID, [I64]@);
    let v = with(v, "js_lru_cache_delete", DOUBLE, [I64, DOUBLE]@);
    let v = with(v, "js_lru_cache_get", DOUBLE, [I64, DOUBLE]@);
    let v = with(v, "js_lru_cache_has", DOUBLE, [I64, DOUBLE]@);
    let v = with(v, "js_lru_cache_new", I64, [DOUBLE]@);
    let v = with(v, "js_lru_cache_peek", DOUBLE, [I64, DOUBLE]@);
    let v = with(v, "js_lru_cache_set", I64, [I64, DOUBLE, DOUBLE]@);
    let v = with(v, "js_lru_cache_size", DOUBLE, [I64]@);
    let v = with(v, "js_event_emitter_emit", DOUBLE, [I64, I64, DOUBLE]@);
    let v = with(v, "js_event_emitter_emit0", DOUBLE, [I64, I64]@);
    let v = with(v, "js_event_emitter_listener_count", DOUBLE, [I64, I64]@);
    let v = with(v, "js_event_emitter_new", I64, []@);
    let v = with(v, "js_event_emitter_on", I64, [I64, I64, I64]@);
    let v = with(v, "js_event_emitter_remove_all_listeners", I64, [I64, I64]@);
    let v = with(v, "js_event_emitter_remove_listener", I64, [I64, I64, I64]@);
    v
}

fn declare_caches(m: &mut LlModule)
    ensures
        declared(final(m).declarations@) == caches(declared(old(m).declarations@)),
        old(m).wf() ==> final(m).wf(),
        final(m).host == old(m).host,
        final(m).functions == old(m).functions,
{
    m.declare_function("js_lru_cache_clear", VOID, &[I64]);
    m.declare_function("js_lru_cache_delete", DOUBLE, &[I64, DOUBLE]);
    m.declare_function("js_lru_cache_get", DOUBLE, &[I64, DOUBLE]);
    m.declare_function("js_lru_cache_has", DOUBLE, &[I64, DOUBLE]);
    m.declare_function("js_lru_cache_new", I64, &[DOUBLE]);
    m.declare_function("js_lru_cache_peek", DOUBLE, &[I64, DOUBLE]);
    m.declare_function("js_lru_cache_set", I64, &[I64, DOUBLE, DOUBLE]);
    m.declare_function("js_lru_cache_size", DOUBLE, &[I64]);
    m.declare_function("js_event_emitter_emit", DOUBLE, &[I64, I64, DOUBLE]);
    m.declare_function("js_event_emitter_emit0", DOUBLE, &[I64, I64]);
    m.declare_function("js_event_emitter_listener_count", DOUBLE, &[I64, I64]);
    m.declare_function("js_event_emitter_new", I64, &[]);
    m.declare_function("js_event_emitter_on", I64, &[I64, I64, I64]);
    m.declare_function("js_event_emitter_remove_all_listeners", I64, &[I64, I64]);
    m.declare_function("js_event_emitter_remove_listener", I64, &[I64, I64, I64]);
}

/// The web framework and mail.
pub open spec fn web_framework(v: Seq<DeclarationView>) -> Seq<DeclarationView> {
    let v = with(v, "js_fastify_add_hook", I32, [I64, I64, I64]@);
    let v = with(v, "js_fastify_all", I32, [I64, I64, I64]@);
    let v = with(v, "js_fastify_create", I64, []@);
    let v = with(v, "js_fastify_create_with_opts", I64, [DOUBLE]@);
    let v = with(v, "js_fastify_ctx_html", DOUBLE, [I64, I64, DOUBLE]@);
    let v = with(v, "js_fastify_ctx_json", DOUBLE, [I64, DOUBLE, DOUBLE]@);
    let v = with(v, "js_fastify_ctx_redirect", DOUBLE, [I64, I64, DOUBLE]@);
    let v = with(v, "js_fastify_ctx_text", DOUBLE, [I64, I64, DOUBLE]@);
    let v = with(v, "js_fastify_delete", I32, [I64, I64, I64]@);
    let v = with(v, "js_fastify_get", I32, [I64, I64, I64]@);
    let v = with(v, "js_fastify_head", I32, [I64, I64, I64]@);
    let v = with(v, "js_fastify_listen", VOID, [I64, DOUBLE, I64]@);
    let v = with(v, "js_fastify_options", I32, [I64, I64, I64]@);
    let v = with(v, "js_fastify_patch", I32, [I64, I64, I64]@);
    let v = with(v, "js_fastify_post", I32, [I64, I64, I64]@);
    let v = with(v, "js_fastify_put", I32, [I64, I64, I64]@);
    let v = with(v, "js_fastify_register", I32, [I64, I64, DOUBLE]@);
    let v = with(v, "js_fastify_reply_header", I64, [I64, I64, I64]@);
    let v = with(v, "js_fastify_reply_send", I32, [I64, DOUBLE]@);
    let v = with(v, "js_fastify_reply_status", I64, [I64, DOUBLE]@);
    let v = with(v, "js_fastify_req_body", I64, [I64]@);
    let v = with(v, "js_fastify_req_get_user_data", DOUBLE, [I64]@);
    let v = with(v, "js_fastify_req_header", I64, [I64, I64]@);
    let v = with(v, "js_fastify_req_headers", I64, [I64]@);
    let v = with(v, "js_fastify_req_json", DOUBLE, [I64]@);
    let v = with(v, "js_fastify_req_method", I64, [I64]@);
    let v = with(v, "js_fastify_req_param", I64, [I64, I64]@);
    let v = with(v, "js_fastify_req_params", I64, [I64]@);
    let v = with(v, "js_fastify_req_query", I64, [I64]@);
    let v = with(v, "js_fastify_req_query_object", DOUBLE, [I64]@);
    let v = with(v, "js_fastify_req_set_user_data", VOID, [I64, DOUBLE]@);
    let v = with(v, "js_fastify_req_url", I64, [I64]@);
    let v = with(v, "js_fastify_route", I32, [I64, I64, I64, I64]@);
    let v = with(v, "js_fastify_set_error_handler", I32, [I64, I64]@);
    let v = with(v, "js_nodemailer_create_transport", DOUBLE, [I64]@);
    let v = with(v, "js_nodemailer_send_mail", I64, [I64, I64]@);
    let v = with(v, "js_nodemailer_verify", I64, [I64]@);
    v
}

fn declare_web_framework(m: &mut LlModule)
    ensures
        declared(final(m).declarations@) == web_framework(declared(old(m).declarations@)),
        old(m).wf() ==> final(m).wf(),
        final(m).host == old(m).host,
        final(m).functions == old(m).functions,
{
    m.declare_function("js_fastify_add_hook", I32, &[I64, I64, I64]);
    m.declare_function("js_fastify_all", I32, &[I64, I64, I64]);
    m.declare_function("js_fastify_create", I64, &[]);
    m.declare_function("js_fastify_create_with_opts", I64, &[DOUBLE]);
    m.declare_function("js_fastify_ctx_html", DOUBLE, &[I64, I64, DOUBLE]);
    m.declare_function("js_fastify_ctx_json", DOUBLE, &[I64, DOUBLE, DOUBLE]);
    m.declare_function("js_fastify_ctx_redirect", DOUBLE, &[I64, I64, DOUBLE]);
    m.declare_function("js_fastify_ctx_text", DOUBLE, &[I64, I64, DOUBLE]);
    m.declare_function("js_fastify_delete", I32, &[I64, I64, I64]);
    m.declare_function("js_fastify_get", I32, &[I64, I64, I64]);
    m.declare_function("js_fastify_head", I32, &[I64, I64, I64]);
    m.declare_function("js_fastify_listen", VOID, &[I64, DOUBLE, I64]);
    m.declare_function("js_fastify_options", I32, &[I64, I64, I64]);
    m.declare_function("js_fastify_patch", I32, &[I64, I64, I64]);
    m.declare_function("js_fastify_post", I32, &[I64, I64, I64]);
    m.declare_function("js_fastify_put", I32, &[I64, I64, I64]);
    m.declare_function("js_fastify_register", I32, &[I64, I64, DOUBLE]);
    m.declare_function("js_fastify_reply_header", I64, &[I64, I64, I64]);
    m.declare_function("js_fastify_reply_send", I32, &[I64, DOUBLE]);
    m.declare_function("js_fastify_reply_status", I64, &[I64, DOUBLE]);
    m.declare_function("js_fastify_req_body", I64, &[I64]);
    m.declare_function("js_fastify_req_get_user_data", DOUBLE, &[I64]);
    m.declare_function("js_fastify_req_header", I64, &[I64, I64]);
    m.declare_function("js_fastify_req_headers", I64, &[I64]);
    m.declare_function("js_fastify_req_json", DOUBLE, &[I64]);
    m.declare_function("js_fastify_req_method", I64, &[I64]);
    m.declare_function("js_fastify_req_param", I64, &[I64, I64]);
    m.declare_function("js_fastify_req_params", I64, &[I64]);
    m.declare_function("js_fastify_req_query", I64, &[I64]);
    m.declare_function("js_fastify_req_query_object", DOUBLE, &[I64]);
    m.declare_function("js_fastify_req_set_user_data", VOID, &[I64, DOUBLE]);
    m.declare_function("js_fastify_req_url", I64, &[I64]);
    m.declare_function("js_fastify_route", I32, &[I64, I64, I64, I64]);
    m.declare_function("js_fastify_set_error_handler", I32, &[I64, I64]);
    m.declare_function("js_nodemailer_create_transport", DOUBLE, &[I64]);
    m.declare_function("js_nodemailer_send_mail", I64, &[I64, I64]);
    m.declare_function("js_nodemailer_verify", I64, &[I64]);
}

/// Rate limits and validators.
pub open spec fn validation(v: Seq<DeclarationView>) -> Seq<DeclarationView> {
    let v = with(v, "js_ratelimit_block", I64, [I64, I64, DOUBLE]@);
    let v = with(v, "js_ratelimit_consume", I64, [I64, I64, DOUBLE]@);
    let v = with(v, "js_ratelimit_create", I64, [I64]@);
    let v = with(v, "js_ratelimit_delete", I64, [I64, I64]@);
    let v = with(v, "js_ratelimit_get", I64, [I64, I64]@);
    let v = with(v, "js_ratelimit_penalty", I64, [I64, I64, DOUBLE]@);
    let v = with(v, "js_ratelimit_reward", I64, [I64, I64, DOUBLE]@);
    let v = with(v, "js_validator_contains", DOUBLE, [I64, I64]@);
    let v = with(v, "js_validator_equals", DOUBLE, [I64, I64]@);
    let v = with(v, "js_validator_is_alpha", DOUBLE, [I64]@);
    let v = with(v, "js_validator_is_alphanumeric", DOUBLE, [I64]@);
    let v = with(v, "js_validator_is_email", DOUBLE, [I64]@);
    let v = with(v, "js_validator_is_empty", DOUBLE, [I64]@);
    let v = with(v, "js_validator_is_float", DOUBLE, [I64]@);
    let v = with(v, "js_validator_is_hexadecimal", DOUBLE, [I64]@);
    let v = with(v, "js_validator_is_int", DOUBLE, [I64]@);
    let v = with(v, "js_validator_is_json", DOUBLE, [I64]@);
    let v = with(v, "js_validator_is_length", DOUBLE, [I64, DOUBLE, DOUBLE]@);
    let v = with(v, "js_validator_is_lowercase", DOUBLE, [I64]@);
    let v = with(v, "js_validator_is_numeric", DOUBLE, [I64]@);
    let v = with(v, "js_validator_is_uppercase", DOUBLE, [I64]@);
    let v = with(v, "js_validator_is_url", DOUBLE, [I64]@);
    let v = with(v, "js_validator_is_uuid", DOUBLE, [I64]@);
    v
}

fn declare_validation(m: &mut LlModule)
    ensures
        declared(final(m).declarations@) == validation(declared(old(m).declarations@)),
        old(m).wf() ==> final(m).wf(),
        final(m).host == old(m).host,
        final(m).functions == old(m).functions,
{
    m.declare_function("js_ratelimit_block", I64, &[I64, I64, DOUBLE]);
    m.declare_function("js_ratelimit_consume", I64, &[I64, I64, DOUBLE]);
    m.declare_function("js_ratelimit_create", I64, &[I64]);
    m.declare_function("js_ratelimit_delete", I64, &[I64, I64]);
    m.declare_function("js_ratelimit_get", I64, &[I64, I64]);
    m.declare_function("js_ratelimit_penalty", I64, &[I64, I64, DOUBLE]);
    m.declare_function("js_ratelimit_reward", I64, &[I64, I64, DOUBLE]);
    m.declare_function("js_validator_contains", DOUBLE, &[I64, I64]);
    m.declare_function("js_validator_equals", DOUBLE, &[I64, I64]);
    m.declare_function("js_validator_is_alpha", DOUBLE, &[I64]);
    m.declare_function("js_validator_is_alphanumeric", DOUBLE, &[I64]);
    m.declare_function("js_validator_is_email", DOUBLE, &[I64]);
    m.declare_function("js_validator_is_empty", DOUBLE, &[I64]);
    m.declare_function("js_validator_is_float", DOUBLE, &[I64]);
    m.declare_function("js_validator_is_hexadecimal", DOUBLE, &[I64]);
    m.declare_function("js_validator_is_int", DOUBLE, &[I64]);
    m.declare_function("js_validator_is_json", DOUBLE, &[I64]);
    m.declare_function("js_validator_is_length", DOUBLE, &[I64, DOUBLE, DOUBLE]);
    m.declare_function("js_validator_is_lowercase", DOUBLE, &[I64]);
    m.declare_function("js_validator_is_numeric", DOUBLE, &[I64]);
    m.declare_function("js_validator_is_uppercase", DOUBLE, &[I64]);
    m.declare_function("js_validator_is_url", DOUBLE, &[I64]);
    m.declare_function("js_validator_is_uuid", DOUBLE, &[I64]);
}

/// Dates, strings, objects, numbers and JSON.
pub open spec fn language(v: Seq<DeclarationView>) -> Seq<DeclarationView> {
    let v = with(v, "js_date_to_locale_string", I64, [DOUBLE]@);
    let v = with(v, "js_string_split_regex", I64, [I64, I64]@);
    let v = with(v, "js_object_delete_dynamic", I32, [I64, DOUBLE]@);
    let v = with(v, "js_object_get_prototype_of", DOUBLE, [DOUBLE]@);
    let v = with(v, "js_math_acos", DOUBLE, [DOUBLE]@);
    let v = with(v, "js_math_asin", DOUBLE, [DOUBLE]@);
    let v = with(v, "js_math_atan", DOUBLE, [DOUBLE]@);
    let v = with(v, "js_math_atan2", DOUBLE, [DOUBLE, DOUBLE]@);
    let v = with(v, "js_math_cos", DOUBLE, [DOUBLE]@);
    let v = with(v, "js_math_expm1", DOUBLE, [DOUBLE]@);
    let v = with(v, "js_math_log", DOUBLE, [DOUBLE]@);
    let v = with(v, "js_math_log10", DOUBLE, [DOUBLE]@);
    let v = with(v, "js_math_log1p", DOUBLE, [DOUBLE]@);
    let v = with(v, "js_math_log2", DOUBLE, [DOUBLE]@);
    let v = with(v, "js_math_sin", DOUBLE, [DOUBLE]@);
    let v = with(v, "js_math_tan", DOUBLE, [DOUBLE]@);
    let v = with(v, "js_number_is_finite", DOUBLE, [DOUBLE]@);
    let v = with(v, "js_json_get_bool", DOUBLE, [I64, I64]@);
    let v = with(v, "js_json_get_number", DOUBLE, [I64, I64]@);
    let v = with(v, "js_json_get_string", I64, [I64, I64]@);
    let v = with(v, "js_json_is_valid", DOUBLE, [I64]@);
    let v = with(v, "js_json_stringify_bool", I64, [DOUBLE]@);
    let v = with(v, "js_json_stringify_null", I64, []@);
    let v = with(v, "js_json_stringify_number", I64, [DOUBLE]@);
    let v = with(v, "js_json_stringify_string", I64, [I64]@);
    let v = with(v, "js_set_property", VOID, [DOUBLE, I64, I64, DOUBLE]@);
    let v = with(v, "js_error_get_message", I64, [I64]@);
    let v = with(v, "js_await_js_promise", DOUBLE, [DOUBLE]@);
    let v = with(v, "js_text_decoder_decode", I64, [I64]@);
    let v = with(v, "js_text_encoder_encode", I64, [DOUBLE]@);
    v
}

fn declare_language(m: &mut LlModule)
    ensures
        declared(final(m).declarations@) == language(declared(old(m).declarations@)),
        old(m).wf() ==> final(m).wf(),
        final(m).host == old(m).host,
        final(m).functions == old(m).functions,
{
    m.declare_function("js_date_to_locale_string", I64, &[DOUBLE]);
    m.declare_function("js_string_split_regex", I64, &[I64, I64]);
    m.declare_function("js_object_delete_dynamic", I32, &[I64, DOUBLE]);
    m.declare_function("js_object_get_prototype_of", DOUBLE, &[DOUBLE]);
    m.declare_function("js_math_acos", DOUBLE, &[DOUBLE]);
    m.declare_function("js_math_asin", DOUBLE, &[DOUBLE]);
    m.declare_function("js_math_atan", DOUBLE, &[DOUBLE]);
    m.declare_function("js_math_atan2", DOUBLE, &[DOUBLE, DOUBLE]);
    m.declare_function("js_math_cos", DOUBLE, &[DOUBLE]);
    m.declare_function("js_math_expm1", DOUBLE, &[DOUBLE]);
    m.declare_function("js_math_log", DOUBLE, &[DOUBLE]);
    m.declare_function("js_math_log10", DOUBLE, &[DOUBLE]);
    m.declare_function("js_math_log1p", DOUBLE, &[DOUBLE]);
    m.declare_function("js_math_log2", DOUBLE, &[DOUBLE]);
    m.declare_function("js_math_sin", DOUBLE, &[DOUBLE]);
    m.declare_function("js_math_tan", DOUBLE, &[DOUBLE]);
    m.declare_function("js_number_is_finite", DOUBLE, &[DOUBLE]);
    m.declare_function("js_json_get_bool", DOUBLE, &[I64, I64]);
    m.declare_function("js_json_get_number", DOUBLE, &[I64, I64]);
    m.declare_function("js_json_get_string", I64, &[I64, I64]);
    m.declare_function("js_json_is_valid", DOUBLE, &[I64]);
    m.declare_function("js_json_stringify_bool", I64, &[DOUBLE]);
    m.declare_function("js_json_stringify_null", I64, &[]);
    m.declare_function("js_json_stringify_number", I64, &[DOUBLE]);
    m.declare_function("js_json_stringify_string", I64, &[I64]);
    m.declare_function("js_set_property", VOID, &[DOUBLE, I64, I64, DOUBLE]);
    m.declare_function("js_error_get_message", I64, &[I64]);
    m.declare_function("js_await_js_promise", DOUBLE, &[DOUBLE]);
    m.declare_function("js_text_decoder_decode", I64, &[I64]);
    m.declare_function("js_text_encoder_encode", I64, &[DOUBLE]);
}

/// Calls, coercions, collection, console and fetching.
pub open spec fn calls(v: Seq<DeclarationView>) -> Seq<DeclarationView> {
    let v = with(v, "js_call_function", DOUBLE, [I64, I64, I64, I64, I64]@);
    let v = with(v, "js_call_method", DOUBLE, [DOUBLE, I64, I64, I64, I64]@);
    let v = with(v, "js_closure_call_array", DOUBLE, [I64, I64, I64]@);
    let v = with(v, "js_create_callback", DOUBLE, [I64, I64, I64]@);
    let v = with(v, "js_dynamic_neg", DOUBLE, [DOUBLE]@);
    let v = with(v, "js_dynamic_string_equals", I32, [DOUBLE, DOUBLE]@);
    let v = with(v, "js_is_nan", DOUBLE, [DOUBLE]@);
    let v = with(v, "js_jsvalue_compare", I32, [DOUBLE, DOUBLE]@);
    let v = with(v, "js_jsvalue_equals", I32, [DOUBLE, DOUBLE]@);
    let v = with(v, "js_jsvalue_loose_equals", I32, [DOUBLE, DOUBLE]@);
    let v = with(v, "js_gc_collect", VOID, []@);
    let v = with(v, "js_console_assert", VOID, [DOUBLE, I64]@);
    let v = with(v, "js_console_assert_spread", VOID, [DOUBLE, I64]@);
    let v = with(v, "js_console_group", VOID, [I64]@);
    let v = with(v, "js_fetch_get", I64, [I64]@);
    let v = with(v, "js_fetch_get_with_auth", I64, [I64, I64]@);
    let v = with(v, "js_fetch_post", I64, [I64, I64, I64]@);
    let v = with(v, "js_fetch_post_with_auth", I64, [I64, I64, I64]@);
    let v = with(v, "js_fetch_stream_close", DOUBLE, [DOUBLE]@);
    let v = with(v, "js_fetch_stream_poll", I64, [DOUBLE]@);
    let v = with(v, "js_fetch_stream_start", DOUBLE, [I64, I64, I64, I64]@);
    let v = with(v, "js_fetch_stream_status", DOUBLE, [DOUBLE]@);
    let v = with(v, "js_fetch_text", I64, [I64]@);
    let v = with(v, "js_fetch_with_options", I64, [I64, I64, I64, I64]@);
    v
}

fn declare_calls(m: &mut LlModule)
    ensures
        declared(final(m).declarations@) == calls(declared(old(m).declarations@)),
        old(m).wf() ==> final(m).wf(),
        final(m).host == old(m).host,
        final(m).functions == old(m).functions,
{
    m.declare_function("js_call_function", DOUBLE, &[I64, I64, I64, I64, I64]);
    m.declare_function("js_call_method", DOUBLE, &[DOUBLE, I64, I64, I64, I64]);
    m.declare_function("js_closure_call_array", DOUBLE, &[I64, I64, I64]);
    m.declare_function("js_create_callback", DOUBLE, &[I64, I64, I64]);
    m.declare_function("js_dynamic_neg", DOUBLE, &[DOUBLE]);
    m.declare_function("js_dynamic_string_equals", I32, &[DOUBLE, DOUBLE]);
    m.declare_function("js_is_nan", DOUBLE, &[DOUBLE]);
    m.declare_function("js_jsvalue_compare", I32, &[DOUBLE, DOUBLE]);
    m.declare_function("js_jsvalue_equals", I32, &[DOUBLE, DOUBLE]);
    m.declare_function("js_jsvalue_loose_equals", I32, &[DOUBLE, DOUBLE]);
    m.declare_function("js_gc_collect", VOID, &[]);
    m.declare_function("js_console_assert", VOID, &[DOUBLE, I64]);
    m.declare_function("js_console_assert_spread", VOID, &[DOUBLE, I64]);
    m.declare_function("js_console_group", VOID, &[I64]);
    m.declare_function("js_fetch_get", I64, &[I64]);
    m.declare_function("js_fetch_get_with_auth", I64, &[I64, I64]);
    m.declare_function("js_fetch_post", I64, &[I64, I64, I64]);
    m.declare_function("js_fetch_post_with_auth", I64, &[I64, I64, I64]);
    m.declare_function("js_fetch_stream_close", DOUBLE, &[DOUBLE]);
    m.declare_function("js_fetch_stream_poll", I64, &[DOUBLE]);
    m.declare_function("js_fetch_stream_start", DOUBLE, &[I64, I64, I64, I64]);
    m.declare_function("js_fetch_stream_status", DOUBLE, &[DOUBLE]);
    m.declare_function("js_fetch_text", I64, &[I64]);
    m.declare_function("js_fetch_with_options", I64, &[I64, I64, I64, I64]);
}

/// Networking, timing, classes, module loading and components.
pub open spec fn loading(v: Seq<DeclarationView>) -> Seq<DeclarationView> {
    let v = with(v, "js_net_create_connection", DOUBLE, [I32, I64, I64]@);
    let v = with(v, "js_net_create_server", DOUBLE, [I64, I64]@);
    let v = with(v, "js_performance_now", DOUBLE, []@);
    let v = with(v, "js_slugify", I64, [I64]@);
    let v = with(v, "js_slugify_strict", I64, [I64]@);
    let v = with(v, "js_register_class_getter", VOID, [I64, I64, I64, I64]@);
    let v = with(v, "js_register_class_method", VOID, [I64, I64, I64, I64, I64]@);
    let v = with(v, "js_get_export", DOUBLE, [I64, I64, I64]@);
    let v = with(v, "js_get_property", DOUBLE, [DOUBLE, I64, I64]@);
    let v = with(v, "js_load_module", I64, [I64, I64]@);
    let v = with(v, "js_native_call_method", DOUBLE, [DOUBLE, I64, I64, I64, I64]@);
    let v = with(v, "js_native_call_value", DOUBLE, [DOUBLE, I64, I64]@);
    let v = with(v, "js_new_from_handle", DOUBLE, [DOUBLE, I64, I64]@);
    let v = with(v, "js_new_instance", DOUBLE, [I64, I64, I64, I64, I64]@);
    let v = with(v, "js_runtime_init", VOID, []@);
    let v = with(v, "js_object_set_symbol_method", DOUBLE, [DOUBLE, DOUBLE, DOUBLE]@);
    let v = with(v, "js_to_primitive", DOUBLE, [DOUBLE, I32]@);
    let v = with(v, "js_register_class_has_instance", VOID, [I32, I64]@);
    let v = with(v, "js_register_class_to_string_tag", VOID, [I32, I64]@);
    let v = with(v, "js_object_to_string", DOUBLE, [DOUBLE]@);
    let v = with(v, "js_object_group_by", DOUBLE, [DOUBLE, I64]@);
    let v = with(v, "js_array_from_async", DOUBLE, [DOUBLE]@);
    let v = with(v, "js_jsx", DOUBLE, [DOUBLE, DOUBLE]@);
    let v = with(v, "js_jsxs", DOUBLE, [DOUBLE, DOUBLE]@);
    v
}

fn declare_loading(m: &mut LlModule)
    ensures
        declared(final(m).declarations@) == loading(declared(old(m).declarations@)),
        old(m).wf() ==> final(m).wf(),
        final(m).host == old(m).host,
        final(m).functions == old(m).functions,
{
    m.declare_function("js_net_create_connection", DOUBLE, &[I32, I64, I64]);
    m.declare_function("js_net_create_server", DOUBLE, &[I64, I64]);
    m.declare_function("js_performance_now", DOUBLE, &[]);
    m.declare_function("js_slugify", I64, &[I64]);
    m.declare_function("js_slugify_strict", I64, &[I64]);
    m.declare_function("js_register_class_getter", VOID, &[I64, I64, I64, I64]);
    m.declare_function("js_register_class_method", VOID, &[I64, I64, I64, I64, I64]);
    m.declare_function("js_get_export", DOUBLE, &[I64, I64, I64]);
    m.declare_function("js_get_property", DOUBLE, &[DOUBLE, I64, I64]);
    m.declare_function("js_load_module", I64, &[I64, I64]);
    m.declare_function("js_native_call_method", DOUBLE, &[DOUBLE, I64, I64, I64, I64]);
    m.declare_function("js_native_call_value", DOUBLE, &[DOUBLE, I64, I64]);
    m.declare_function("js_new_from_handle", DOUBLE, &[DOUBLE, I64, I64]);
    m.declare_function("js_new_instance", DOUBLE, &[I64, I64, I64, I64, I64]);
    m.declare_function("js_runtime_init", VOID, &[]);
    m.declare_function("js_object_set_symbol_method", DOUBLE, &[DOUBLE, DOUBLE, DOUBLE]);
    m.declare_function("js_to_primitive", DOUBLE, &[DOUBLE, I32]);
    m.declare_function("js_register_class_has_instance", VOID, &[I32, I64]);
    m.declare_function("js_register_class_to_string_tag", VOID, &[I32, I64]);
    m.declare_function("js_object_to_string", DOUBLE, &[DOUBLE]);
    m.declare_function("js_object_group_by", DOUBLE, &[DOUBLE, I64]);
    m.declare_function("js_array_from_async", DOUBLE, &[DOUBLE]);
    m.declare_function("js_jsx", DOUBLE, &[DOUBLE, DOUBLE]);
    m.declare_function("js_jsxs", DOUBLE, &[DOUBLE, DOUBLE]);
}

/// Saving the stack context: the function to call differs on Windows, which
/// also wants the frame.
pub open spec fn stack_context(v: Seq<DeclarationView>, host: Platform) -> Seq<DeclarationView> {
    if host == Platform::Windows {
        with(v, "_setjmp", I32, [PTR, PTR]@)
    } else {
        with(v, "setjmp", I32, [PTR]@)
    }
}

fn declare_stack_context(m: &mut LlModule)
    ensures
        declared(final(m).declarations@) == stack_context(
            declared(old(m).declarations@),
            old(m).host,
        ),
        old(m).wf() ==> final(m).wf(),
        final(m).host == old(m).host,
        final(m).functions == old(m).functions,
{
    if m.host == Platform::Windows {
        m.declare_function("_setjmp", I32, &[PTR, PTR]);
    } else {
        m.declare_function("setjmp", I32, &[PTR]);
    }
}

/// The functions of the standard library.
pub open spec fn stdlib_ffi(v: Seq<DeclarationView>, host: Platform) -> Seq<DeclarationView> {
    let v = http(v);
    let v = databases(v);
    let v = mongodb(v);
    let v = credentials(v);
    let v = images(v);
    let v = buffers(v);
    let v = documents(v);
    let v = urls(v);
    let v = sockets(v);
    let v = crypto(v);
    let v = date_libraries(v);
    let v = decimals(v);
    let v = utilities(v);
    let v = caches(v);
    let v = web_framework(v);
    let v = validation(v);
    let v = language(v);
    let v = calls(v);
    let v = loading(v);
    v
}

/// Declares: the functions of the standard library.
pub fn declare_stdlib_ffi(m: &mut LlModule)
    ensures
        declared(final(m).declarations@) == stdlib_ffi(
            declared(old(m).declarations@),
            old(m).host,
        ),
        old(m).wf() ==> final(m).wf(),
        final(m).host == old(m).host,
        final(m).functions == old(m).functions,
{
    declare_http(m);
    declare_databases(m);
    declare_mongodb(m);
    declare_credentials(m);
    declare_images(m);
    declare_buffers(m);
    declare_documents(m);
    declare_urls(m);
    declare_sockets(m);
    declare_crypto(m);
    declare_date_libraries(m);
    declare_decimals(m);
    declare_utilities(m);
    declare_caches(m);
    declare_web_framework(m);
    declare_validation(m);
    declare_language(m);
    declare_calls(m);
    declare_loading(m);
}

/// Objects.
pub open spec fn objects(v: Seq<DeclarationView>) -> Seq<DeclarationView> {
    proxies(object_storage(v))
}

/// Objects, and the standard library after them.
pub open spec fn phase_b_objects(v: Seq<DeclarationView>, host: Platform) -> Seq<DeclarationView> {
    stdlib_ffi(objects(v), host)
}

/// Declares: objects, and the standard library after them.
pub fn declare_phase_b_objects(m: &mut LlModule)
    ensures
        declared(final(m).declarations@) == phase_b_objects(
            declared(old(m).declarations@),
            old(m).host,
        ),
        old(m).wf() ==> final(m).wf(),
        final(m).host == old(m).host,
        final(m).functions == old(m).functions,
{
    declare_object_storage(m);
    declare_proxies(m);
    declare_stdlib_ffi(m);
}

/// Arrays, and all that follows them.
pub open spec fn phase_b_arrays(v: Seq<DeclarationView>, host: Platform) -> Seq<DeclarationView> {
    let v = array_storage(v);
    phase_b_objects(v, host)
}

/// Declares: arrays, and all that follows them.
pub fn declare_phase_b_arrays(m: &mut LlModule)
    ensures
        declared(final(m).declarations@) == phase_b_arrays(
            declared(old(m).declarations@),
            old(m).host,
        ),
        old(m).wf() ==> final(m).wf(),
        final(m).host == old(m).host,
        final(m).functions == old(m).functions,
{
    declare_array_storage(m);
    declare_phase_b_objects(m);
}

/// Strings and the core types.
pub open spec fn core_types(v: Seq<DeclarationView>, host: Platform) -> Seq<DeclarationView> {
    let v = string_operations(v);
    let v = closures(v);
    let v = core_collections(v);
    let v = file_system(v);
    let v = string_basics(v);
    let v = process(v);
    let v = instances(v);
    let v = date_fields(v);
    let v = collection_methods(v);
    let v = dynamic_operators(v);
    let v = weak_collections(v);
    let v = parsing(v);
    let v = date_setters(v);
    let v = typed_arrays(v);
    let v = symbols(v);
    let v = string_matching(v);
    let v = cloning(v);
    let v = async_support(v);
    let v = exceptions(v);
    let v = stack_context(v, host);
    let v = timers(v);
    let v = web_responses(v);
    let v = web_streams(v);
    let v = abort_signals(v);
    v
}

/// Strings and the core types, and all that follows them.
pub open spec fn phase_b_strings(v: Seq<DeclarationView>, host: Platform) -> Seq<DeclarationView> {
    phase_b_arrays(core_types(v, host), host)
}

/// Declares: strings and the core types, and all that follows them.
pub fn declare_phase_b_strings(m: &mut LlModule)
    ensures
        declared(final(m).declarations@) == phase_b_strings(
            declared(old(m).declarations@),
            old(m).host,
        ),
        old(m).wf() ==> final(m).wf(),
        final(m).host == old(m).host,
        final(m).functions == old(m).functions,
{
    declare_string_operations(m);
    declare_closures(m);
    declare_core_collections(m);
    declare_file_system(m);
    declare_string_basics(m);
    declare_process(m);
    declare_instances(m);
    declare_date_fields(m);
    declare_collection_methods(m);
    declare_dynamic_operators(m);
    declare_weak_collections(m);
    declare_parsing(m);
    declare_date_setters(m);
    declare_typed_arrays(m);
    declare_symbols(m);
    declare_string_matching(m);
    declare_cloning(m);
    declare_async_support(m);
    declare_exceptions(m);
    declare_stack_context(m);
    declare_timers(m);
    declare_web_responses(m);
    declare_web_streams(m);
    declare_abort_signals(m);
    declare_phase_b_arrays(m);
}

/// What string literals need, and all that follows.
pub open spec fn phase_a_strings(v: Seq<DeclarationView>, host: Platform) -> Seq<DeclarationView> {
    let v = global_roots(v);
    phase_b_strings(v, host)
}

/// Declares: what string literals need, and all that follows.
pub fn declare_phase_a_strings(m: &mut LlModule)
    ensures
        declared(final(m).declarations@) == phase_a_strings(
            declared(old(m).declarations@),
            old(m).host,
        ),
        old(m).wf() ==> final(m).wf(),
        final(m).host == old(m).host,
        final(m).functions == old(m).functions,
{
    declare_global_roots(m);
    declare_phase_b_strings(m);
}

/// Timing, and all that follows.
pub open spec fn phase2_1(v: Seq<DeclarationView>, host: Platform) -> Seq<DeclarationView> {
    let v = timing(v);
    phase_a_strings(v, host)
}

/// Declares: timing, and all that follows.
pub fn declare_phase2_1(m: &mut LlModule)
    ensures
        declared(final(m).declarations@) == phase2_1(
            declared(old(m).declarations@),
            old(m).host,
        ),
        old(m).wf() ==> final(m).wf(),
        final(m).host == old(m).host,
        final(m).functions == old(m).functions,
{
    declare_timing(m);
    declare_phase_a_strings(m);
}

/// Everything that generated code may call.
pub open spec fn phase1(v: Seq<DeclarationView>, host: Platform) -> Seq<DeclarationView> {
    let v = bootstrap(v);
    phase2_1(v, host)
}

/// Declares: everything that generated code may call.
pub fn declare_phase1(m: &mut LlModule)
    ensures
        declared(final(m).declarations@) == phase1(
            declared(old(m).declarations@),
            old(m).host,
        ),
        old(m).wf() ==> final(m).wf(),
        final(m).host == old(m).host,
        final(m).functions == old(m).functions,
{
    declare_bootstrap(m);
    declare_phase2_1(m);
}

} // verus!
