pub mod hir;
pub mod walk;
pub mod program;
pub mod refs;
pub mod mutation;
pub mod closures;
pub mod index_uses;
pub mod ids;
pub mod integers;
pub mod pointers;
pub mod roots;
pub mod numeric;
pub mod arithmetic;
pub mod classes;
pub mod inheritance;
pub mod doubles;
pub mod escapes;
pub mod escaping_news;
pub mod escaping_arrays;
pub mod escaping_objects;
pub mod confinement;
pub mod values;
pub mod findings;
pub mod llvm;
pub mod runtime_decls;
pub mod phases;
pub mod emit;
pub mod meaning;
pub mod simulation;
