//! ArkUI pages for programs that target HarmonyOS.
//!
//! ArkTS owns the tree of widgets there, so a program's `App({body: ...})` call
//! is not compiled: its body is written out as an ArkUI page, and the call is
//! taken out of the program.
use vstd::prelude::*;
use vstd::string::*;
use crate::codegen::classes::{class_named, find_class};
use crate::codegen::hir::{Class, ClassField, Expr, Module, Stmt};
use crate::text::{
    chars_of, join2, join3, lemma_texts_push, lines, lines_of, same, span, starts_with, texts,
};

verus! {

broadcast use lemma_texts_push;

// ---- string literals ----

/// How a character stands in a single-quoted string literal.
pub open spec fn escape(c: char) -> Seq<char> {
    if c == '\\' {
        "\\\\"@
    } else if c == '\'' {
        "\\'"@
    } else if c == '\n' {
        "\\n"@
    } else if c == '\r' {
        "\\r"@
    } else if c == '\t' {
        "\\t"@
    } else {
        seq![c]
    }
}

/// How a text stands in a single-quoted string literal.
pub open spec fn escaped(s: Seq<char>) -> Seq<char>
    decreases s.len(),
{
    if s.len() == 0 {
        Seq::empty()
    } else {
        escaped(s.drop_last()) + escape(s.last())
    }
}

/// A single-quoted string literal for a text.
pub open spec fn string_literal(s: Seq<char>) -> Seq<char> {
    "'"@ + escaped(s) + "'"@
}

/// Writes a text as an ArkTS string literal.
pub fn arkts_string_lit(s: &str) -> (r: String)
    ensures
        r@ == string_literal(s@),
{
    let cs = chars_of(s);
    let mut out = "'".to_owned();
    let mut i: usize = 0;
    assert(out@ + escaped(s@.take(0)) =~= out@);
    while i < cs.len()
        invariant
            cs@ == s@,
            i <= cs@.len(),
            out@ == "'"@ + escaped(s@.take(i as int)),
        decreases cs@.len() - i,
    {
        let c = cs[i];
        assert(s@.take(i + 1).drop_last() =~= s@.take(i as int));
        if c == '\\' {
            out.append("\\\\");
        } else if c == '\'' {
            out.append("\\'");
        } else if c == '\n' {
            out.append("\\n");
        } else if c == '\r' {
            out.append("\\r");
        } else if c == '\t' {
            out.append("\\t");
        } else {
            let one = span(&cs, i, i + 1);
            assert(one@ =~= seq![c]);
            out.append(one.as_str());
        }
        assert(out@ =~= "'"@ + escaped(s@.take(i + 1)));
        i += 1;
    }
    assert(s@.take(i as int) =~= s@);
    out.append("'");
    out
}

/// The character that an escaped one stands for.
pub open spec fn unescape(c: char) -> Option<char> {
    if c == '\\' || c == '\'' {
        Some(c)
    } else if c == 'n' {
        Some('\n')
    } else if c == 'r' {
        Some('\r')
    } else if c == 't' {
        Some('\t')
    } else {
        None
    }
}

/// The text that the inside of a single-quoted string literal stands for. A
/// quotation mark or a line break would end the literal.
pub open spec fn unescaped(s: Seq<char>) -> Option<Seq<char>>
    decreases s.len(),
{
    if s.len() == 0 {
        Some(Seq::empty())
    } else if s[0] == '\\' {
        if s.len() == 1 {
            None
        } else {
            match (unescape(s[1]), unescaped(s.skip(2))) {
                (Some(c), Some(rest)) => Some(seq![c] + rest),
                _ => None,
            }
        }
    } else if s[0] == '\'' || s[0] == '\n' || s[0] == '\r' {
        None
    } else {
        match unescaped(s.skip(1)) {
            Some(rest) => Some(seq![s[0]] + rest),
            None => None,
        }
    }
}

proof fn lemma_escaped_first(s: Seq<char>)
    requires
        s.len() > 0,
    ensures
        escaped(s) == escape(s[0]) + escaped(s.skip(1)),
    decreases s.len(),
{
    let front = s.drop_last();
    if front.len() == 0 {
        assert(s.skip(1) =~= Seq::empty());
        assert(escaped(front) =~= Seq::empty());
        assert(escaped(s.skip(1)) =~= Seq::empty());
        assert(escaped(s) =~= escape(s[0]) + escaped(s.skip(1)));
    } else {
        lemma_escaped_first(front);
        assert(front.skip(1) =~= s.skip(1).drop_last());
        assert(s.skip(1).last() == s.last());
        assert(escaped(s) =~= escape(s[0]) + escaped(s.skip(1)));
    }
}

/// A string literal stands for the text that it was written for, whatever the
/// text holds.
pub proof fn lemma_literal_reads_back(s: Seq<char>)
    ensures
        unescaped(escaped(s)) == Some(s),
    decreases s.len(),
{
    if s.len() == 0 {
        assert(unescaped(escaped(s))->0 =~= s);
    } else {
        let c = s[0];
        let rest = s.skip(1);
        lemma_escaped_first(s);
        lemma_literal_reads_back(rest);
        reveal_strlit("\\\\");
        reveal_strlit("\\'");
        reveal_strlit("\\n");
        reveal_strlit("\\r");
        reveal_strlit("\\t");
        let all = escaped(s);
        let k = escape(c).len() as int;
        assert(all.skip(k) =~= escaped(rest));
        assert(all[0] == escape(c)[0]);
        if k == 2 {
            assert(all[1] == escape(c)[1]);
        }
        assert(s =~= seq![c] + rest);
    }
}

// ---- widgets ----

/// The `Text` widget for its arguments.
pub open spec fn text_widget(args: Seq<Expr>) -> Seq<char> {
    if args.len() > 0 && args[0] is String {
        "Text("@ + string_literal(args[0]->String_0@) + ").fontSize(20)"@
    } else {
        "Text('[non-literal Text arg]').fontSize(20).fontColor('#888888')"@
    }
}

/// What stands for a widget that is not supported.
pub open spec fn unsupported_widget(name: Seq<char>) -> Seq<char> {
    "// unsupported perry/ui widget: "@ + name
        + " (Phase 2 v1 supports Text only)\nText('[unsupported: "@ + name
        + "]').fontSize(16).fontColor('#888888')"@
}

/// The ArkUI expression for a widget.
pub open spec fn widget(e: Expr) -> Seq<char> {
    match e {
        Expr::NativeMethodCall { module, method, args, .. } => if module@ == "perry/ui"@ {
            if method@ == "Text"@ {
                text_widget(args@)
            } else {
                unsupported_widget(method@)
            }
        } else {
            unrecognized_widget()
        },
        _ => unrecognized_widget(),
    }
}

/// What stands for a body that is no widget.
pub open spec fn unrecognized_widget() -> Seq<char> {
    "// unrecognized body expression (must be a perry/ui widget call)\nText('[unrecognized body]').fontSize(16).fontColor('#888888')"@
}

fn emit_text(args: &[Expr]) -> (r: String)
    ensures
        r@ == text_widget(args@),
{
    if args.len() > 0 {
        if let Expr::String(s) = &args[0] {
            return join3("Text(", arkts_string_lit(s.as_str()).as_str(), ").fontSize(20)");
        }
    }
    "Text('[non-literal Text arg]').fontSize(20).fontColor('#888888')".to_owned()
}

/// Writes the ArkUI expression for a widget. What is not supported becomes a
/// comment and a placeholder: a page with a hole is better than none.
pub fn emit_widget(expr: &Expr) -> (r: String)
    ensures
        r@ == widget(*expr),
{
    if let Expr::NativeMethodCall { module, method, args, .. } = expr {
        if same(module.as_str(), "perry/ui") {
            if same(method.as_str(), "Text") {
                return emit_text(args.as_slice());
            }
            let mut out = join3(
                "// unsupported perry/ui widget: ",
                method.as_str(),
                " (Phase 2 v1 supports Text only)\nText('[unsupported: ",
            );
            out.append(method.as_str());
            out.append("]').fontSize(16).fontColor('#888888')");
            return out;
        }
    }
    "// unrecognized body expression (must be a perry/ui widget call)\nText('[unrecognized body]').fontSize(16).fontColor('#888888')".to_owned()
}

// ---- pages ----

/// Lines indented by twelve spaces, with line feeds between them.
pub open spec fn indented(ls: Seq<Seq<char>>) -> Seq<char>
    decreases ls.len(),
{
    if ls.len() == 0 {
        Seq::empty()
    } else if ls.len() == 1 {
        "            "@ + ls[0]
    } else {
        indented(ls.drop_last()) + "\n"@ + ("            "@ + ls.last())
    }
}

fn indent(ls: &Vec<String>) -> (r: String)
    ensures
        r@ == indented(texts(ls@)),
{
    let mut out = String::new();
    let mut i: usize = 0;
    let ghost all = texts(ls@);
    while i < ls.len()
        invariant
            i <= ls@.len(),
            all == texts(ls@),
            out@ == indented(all.take(i as int)),
        decreases ls@.len() - i,
    {
        let line = join2("            ", ls[i].as_str());
        proof {
            assert(all.take(i + 1).drop_last() =~= all.take(i as int));
            assert(all.take(i + 1).last() == all[i as int]);
        }
        if i > 0 {
            out.append("\n");
            out.append(line.as_str());
        } else {
            out.append(line.as_str());
            assert(out@ =~= indented(all.take(1)));
        }
        i += 1;
    }
    assert(all.take(i as int) =~= all);
    out
}

/// What stands on a page in front of the widget.
pub open spec fn page_head() -> Seq<char> {
    "// Auto-generated by Perry (perry-codegen-arkts) — do not edit.\n// Regenerated every `perry compile --target harmonyos`.\n//\n// Source of truth is the `App({body: ...})` call in your\n// TypeScript entry. Edit there; this file is overwritten.\n@Entry\n@Component\nstruct Index {\n    build() {\n        Column() {\n"@
}

/// What stands on a page behind the widget.
pub open spec fn page_tail() -> Seq<char> {
    "\n        }\n        .width('100%')\n        .height('100%')\n        .justifyContent(FlexAlign.Center)\n    }\n}\n"@
}

/// The page that shows a widget.
pub open spec fn page(widget_body: Seq<char>) -> Seq<char> {
    page_head() + indented(lines_of(widget_body)) + page_tail()
}

/// Wraps a widget in a complete page.
pub fn wrap_index_page(widget_body: &str) -> (r: String)
    ensures
        r@ == page(widget_body@),
{
    let body = indent(&lines(widget_body));
    join3(
        "// Auto-generated by Perry (perry-codegen-arkts) — do not edit.\n// Regenerated every `perry compile --target harmonyos`.\n//\n// Source of truth is the `App({body: ...})` call in your\n// TypeScript entry. Edit there; this file is overwritten.\n@Entry\n@Component\nstruct Index {\n    build() {\n        Column() {\n",
        body.as_str(),
        "\n        }\n        .width('100%')\n        .height('100%')\n        .justifyContent(FlexAlign.Center)\n    }\n}\n",
    )
}

// ---- the application call ----

/// The first value under a key of an object literal.
pub open spec fn property(props: Seq<(String, Expr)>, key: Seq<char>) -> Option<Expr>
    decreases props.len(),
{
    if props.len() == 0 {
        None
    } else if props[0].0@ == key {
        Some(props[0].1)
    } else {
        property(props.skip(1), key)
    }
}

/// The position of the first field with the given name.
pub open spec fn field_position(fields: Seq<ClassField>, name: Seq<char>) -> Option<int>
    decreases fields.len(),
{
    if fields.len() == 0 {
        None
    } else if fields[0].name@ == name {
        Some(0)
    } else {
        match field_position(fields.skip(1), name) {
            Some(i) => Some(i + 1),
            None => None,
        }
    }
}

/// The `body` of an object literal: the value under that key, or, where the
/// literal was given a class of its own, the argument for that field.
pub open spec fn body_field(arg: Expr, classes: Seq<Class>) -> Option<Expr> {
    match arg {
        Expr::Object(props) => property(props@, "body"@),
        Expr::New { class_name, args } => if "__AnonShape_"@.is_prefix_of(class_name@) {
            match class_named(classes, class_name@) {
                Some(c) => match field_position(c.fields@, "body"@) {
                    Some(i) => if i < args@.len() {
                        Some(args@[i])
                    } else {
                        None
                    },
                    None => None,
                },
                None => None,
            }
        } else {
            None
        },
        _ => None,
    }
}

/// The body of an application, where a statement is such a call.
pub open spec fn app_body(s: Stmt, classes: Seq<Class>) -> Option<Expr> {
    match s {
        Stmt::Expr(Expr::NativeMethodCall { module, method, object: None, args }) => if module@
            == "perry/ui"@ && method@ == "App"@ && args@.len() == 1 {
            body_field(args@[0], classes)
        } else {
            None
        },
        _ => None,
    }
}

/// The position of the first application call.
pub open spec fn first_app(init: Seq<Stmt>, classes: Seq<Class>) -> Option<int>
    decreases init.len(),
{
    if init.len() == 0 {
        None
    } else if app_body(init[0], classes) is Some {
        Some(0)
    } else {
        match first_app(init.skip(1), classes) {
            Some(i) => Some(i + 1),
            None => None,
        }
    }
}

fn find_property<'a>(props: &'a Vec<(String, Expr)>, key: &str) -> (r: Option<&'a Expr>)
    ensures
        match r {
            Some(e) => property(props@, key@) == Some(*e),
            None => property(props@, key@) is None,
        },
{
    let mut i: usize = 0;
    assert(props@.skip(0) =~= props@);
    while i < props.len()
        invariant
            i <= props@.len(),
            property(props@, key@) == property(props@.skip(i as int), key@),
        decreases props@.len() - i,
    {
        assert(props@.skip(i as int).skip(1) =~= props@.skip(i + 1));
        if same(props[i].0.as_str(), key) {
            return Some(&props[i].1);
        }
        i += 1;
    }
    None
}

fn find_field(fields: &Vec<ClassField>, name: &str) -> (r: Option<usize>)
    ensures
        match r {
            Some(i) => field_position(fields@, name@) == Some(i as int),
            None => field_position(fields@, name@) is None,
        },
{
    let mut i: usize = 0;
    assert(fields@.skip(0) =~= fields@);
    while i < fields.len()
        invariant
            i <= fields@.len(),
            match field_position(fields@.skip(i as int), name@) {
                Some(k) => field_position(fields@, name@) == Some(k + i),
                None => field_position(fields@, name@) is None,
            },
        decreases fields@.len() - i,
    {
        assert(fields@.skip(i as int).skip(1) =~= fields@.skip(i + 1));
        if same(fields[i].name.as_str(), name) {
            return Some(i);
        }
        i += 1;
    }
    None
}

fn extract_body_field<'a>(arg: &'a Expr, classes: &'a [Class]) -> (r: Option<&'a Expr>)
    ensures
        match r {
            Some(e) => body_field(*arg, classes@) == Some(*e),
            None => body_field(*arg, classes@) is None,
        },
{
    match arg {
        Expr::Object(props) => find_property(props, "body"),
        Expr::New { class_name, args } => {
            if !starts_with(class_name.as_str(), "__AnonShape_") {
                return None;
            }
            let class = match find_class(classes, class_name.as_str()) {
                Some(c) => c,
                None => {
                    return None;
                },
            };
            match find_field(&class.fields, "body") {
                Some(i) => if i < args.len() {
                    Some(&args[i])
                } else {
                    None
                },
                None => None,
            }
        },
        _ => None,
    }
}

/// The first application call among the statements: where it is, and its body.
fn find_app<'a>(init: &'a Vec<Stmt>, classes: &'a [Class]) -> (r: Option<(usize, &'a Expr)>)
    ensures
        match r {
            Some(p) => {
                &&& p.0 < init@.len()
                &&& first_app(init@, classes@) == Some(p.0 as int)
                &&& app_body(init@[p.0 as int], classes@) == Some(*p.1)
            },
            None => first_app(init@, classes@) is None,
        },
{
    let mut i: usize = 0;
    assert(init@.skip(0) =~= init@);
    while i < init.len()
        invariant
            i <= init@.len(),
            match first_app(init@.skip(i as int), classes@) {
                Some(k) => first_app(init@, classes@) == Some(k + i),
                None => first_app(init@, classes@) is None,
            },
        decreases init@.len() - i,
    {
        assert(init@.skip(i as int).skip(1) =~= init@.skip(i + 1));
        assert(init@.skip(i as int)[0] == init@[i as int]);
        if let Stmt::Expr(Expr::NativeMethodCall { module, method, object: None, args }) =
            &init[i] {
            if same(module.as_str(), "perry/ui") && same(method.as_str(), "App") && args.len()
                == 1 {
                if let Some(body) = extract_body_field(&args[0], classes) {
                    return Some((i, body));
                }
            }
        }
        i += 1;
    }
    None
}

/// Writes the page for a module's application call, and puts a constant in the
/// place of the call. A module without one is left as it is.
pub fn emit_index_ets(module: &mut Module) -> (r: Option<String>)
    ensures
        final(module).classes == old(module).classes,
        match first_app(old(module).init@, old(module).classes@) {
            Some(i) => {
                &&& r matches Some(text) && text@ == page(
                    widget(app_body(old(module).init@[i], old(module).classes@)->0),
                )
                &&& final(module).init@ == old(module).init@.update(
                    i,
                    Stmt::Expr(Expr::Number(0)),
                )
            },
            None => r is None && final(module).init == old(module).init,
        },
{
    let (at, text) = match find_app(&module.init, module.classes.as_slice()) {
        Some((i, body)) => (i, wrap_index_page(emit_widget(body).as_str())),
        None => {
            return None;
        },
    };
    module.init.set(at, Stmt::Expr(Expr::Number(0)));
    Some(text)
}

// ---- what is taken for an application ----

/// Whether a value is the first that stands under a key of an object literal.
pub open spec fn stands_under(props: Seq<(String, Expr)>, key: Seq<char>, e: Expr) -> bool {
    exists|i: int|
        0 <= i < props.len() && (#[trigger] props[i]).0@ == key && props[i].1 == e && forall|j: int|
            0 <= j < i ==> (#[trigger] props[j]).0@ != key
}

/// Whether a field is the first of a class with a name.
pub open spec fn is_first_field(fields: Seq<ClassField>, name: Seq<char>, i: int) -> bool {
    0 <= i < fields.len() && fields[i].name@ == name && forall|j: int|
        0 <= j < i ==> (#[trigger] fields[j]).name@ != name
}

/// Whether an argument gives a body: as an object literal with a body, or as an
/// instance of a class made for such a literal, at the place of the field.
pub open spec fn gives_body(arg: Expr, classes: Seq<Class>, e: Expr) -> bool {
    match arg {
        Expr::Object(props) => stands_under(props@, "body"@, e),
        Expr::New { class_name, args } => {
            &&& "__AnonShape_"@.is_prefix_of(class_name@)
            &&& class_named(classes, class_name@) matches Some(c)
            &&& exists|i: int|
                #[trigger] is_first_field(c.fields@, "body"@, i) && i < args@.len() && args@[i] == e
        },
        _ => false,
    }
}

/// Whether a statement opens an application with a body: it is a call of `App` of
/// `perry/ui`, on no object, with one argument, which gives the body.
pub open spec fn opens_app(s: Stmt, classes: Seq<Class>, e: Expr) -> bool {
    &&& s matches Stmt::Expr(call)
    &&& call matches Expr::NativeMethodCall { module, method, object, args }
    &&& module@ == "perry/ui"@
    &&& method@ == "App"@
    &&& object is None
    &&& args@.len() == 1
    &&& gives_body(args@[0], classes, e)
}

proof fn lemma_property_told(props: Seq<(String, Expr)>, key: Seq<char>, e: Expr)
    ensures
        property(props, key) == Some(e) <==> stands_under(props, key, e),
    decreases props.len(),
{
    if props.len() > 0 {
        let rest = props.skip(1);
        lemma_property_told(rest, key, e);
        if props[0].0@ == key {
            if stands_under(props, key, e) {
                let i = choose|i: int|
                    0 <= i < props.len() && (#[trigger] props[i]).0@ == key && props[i].1 == e
                        && forall|j: int| 0 <= j < i ==> (#[trigger] props[j]).0@ != key;
                assert(i == 0);
            }
        } else {
            if stands_under(rest, key, e) {
                let i = choose|i: int|
                    0 <= i < rest.len() && (#[trigger] rest[i]).0@ == key && rest[i].1 == e
                        && forall|j: int| 0 <= j < i ==> (#[trigger] rest[j]).0@ != key;
                assert(props[i + 1] == rest[i]);
                assert forall|j: int| 0 <= j < i + 1 implies (#[trigger] props[j]).0@ != key by {
                    if j > 0 {
                        assert(rest[j - 1] == props[j]);
                    }
                }
            }
            if stands_under(props, key, e) {
                let i = choose|i: int|
                    0 <= i < props.len() && (#[trigger] props[i]).0@ == key && props[i].1 == e
                        && forall|j: int| 0 <= j < i ==> (#[trigger] props[j]).0@ != key;
                assert(rest[i - 1] == props[i]);
                assert forall|j: int| 0 <= j < i - 1 implies (#[trigger] rest[j]).0@ != key by {
                    assert(props[j + 1] == rest[j]);
                }
            }
        }
    }
}

proof fn lemma_field_told(fields: Seq<ClassField>, name: Seq<char>, i: int)
    ensures
        field_position(fields, name) == Some(i) <==> is_first_field(fields, name, i),
    decreases fields.len(),
{
    if fields.len() > 0 {
        let rest = fields.skip(1);
        lemma_field_told(rest, name, i - 1);
        if fields[0].name@ != name {
            if is_first_field(rest, name, i - 1) {
                assert forall|j: int| 0 <= j < i implies (#[trigger] fields[j]).name@ != name by {
                    if j > 0 {
                        assert(rest[j - 1] == fields[j]);
                    }
                }
            }
            if is_first_field(fields, name, i) {
                assert forall|j: int| 0 <= j < i - 1 implies (#[trigger] rest[j]).name@
                    != name by {
                    assert(fields[j + 1] == rest[j]);
                }
            }
        }
    }
}

/// A statement has the body of an application exactly where it opens one with it.
pub proof fn lemma_app_told(s: Stmt, classes: Seq<Class>, e: Expr)
    ensures
        app_body(s, classes) == Some(e) <==> opens_app(s, classes, e),
{
    if let Stmt::Expr(Expr::NativeMethodCall { module, method, object, args }) = s {
        if args@.len() == 1 {
            match args@[0] {
                Expr::Object(props) => {
                    lemma_property_told(props@, "body"@, e);
                },
                Expr::New { class_name, args: given } => {
                    if let Some(c) = class_named(classes, class_name@) {
                        if let Some(i) = field_position(c.fields@, "body"@) {
                            lemma_field_told(c.fields@, "body"@, i);
                        }
                        if exists|i: int|
                            #[trigger] is_first_field(c.fields@, "body"@, i) && i < given@.len()
                                && given@[i] == e {
                            let i = choose|i: int|
                                #[trigger] is_first_field(c.fields@, "body"@, i) && i < given@.len()
                                    && given@[i] == e;
                            lemma_field_told(c.fields@, "body"@, i);
                        }
                    }
                },
                _ => {},
            }
        }
    }
}

/// The application of a module is the first statement that opens one, and there is
/// none exactly where no statement does.
pub proof fn lemma_first_app_told(init: Seq<Stmt>, classes: Seq<Class>)
    ensures
        match first_app(init, classes) {
            Some(i) => {
                &&& 0 <= i < init.len()
                &&& app_body(init[i], classes) matches Some(e) && opens_app(init[i], classes, e)
                &&& forall|j: int, e: Expr| 0 <= j < i ==> !(#[trigger] opens_app(
                    init[j],
                    classes,
                    e,
                ))
            },
            None => forall|j: int, e: Expr|
                0 <= j < init.len() ==> !(#[trigger] opens_app(init[j], classes, e)),
        },
    decreases init.len(),
{
    if init.len() > 0 {
        let rest = init.skip(1);
        lemma_first_app_told(rest, classes);
        if let Some(e) = app_body(init[0], classes) {
            lemma_app_told(init[0], classes, e);
        } else {
            assert forall|e: Expr| !(#[trigger] opens_app(init[0], classes, e)) by {
                lemma_app_told(init[0], classes, e);
            }
            assert forall|j: int, e: Expr|
                0 < j < init.len() && (first_app(init, classes) matches Some(i) ==> j < i) implies !(
            #[trigger] opens_app(init[j], classes, e)) by {
                assert(rest[j - 1] == init[j]);
                assert(!opens_app(rest[j - 1], classes, e));
            }
            if let Some(i) = first_app(rest, classes) {
                assert(init[i + 1] == rest[i]);
            }
        }
    }
}

} // verus!
