//! The structural checks that look at one node by itself.

use vstd::prelude::*;
use crate::bindings::{lowercase, to_lowercase};
use crate::domain::violations::opt_text;
use crate::numerals::{decimal, decimal_text};
use crate::patterns::outline::{
    is_listed, lists, plain_finding, shorter_than, utf8_len, Finding, FindingView, finding_views,
};
use crate::syntax::{ArgShape, ExprShape, FunctionInfo, NodeKind, StmtShape, TypeParam};
use crate::text::{
    append, chars_of, contains, contains_text, ends_with, has_suffix, same_text, string_of,
};
use crate::textlines::string_texts;

verus! {

// ---------------------------------------------------------------------------
// Building texts
// ---------------------------------------------------------------------------

/// Two texts, one behind the other.
pub fn concat2(a: &str, b: &str) -> (s: String)
    ensures
        s@ == a@ + b@,
{
    let mut out = chars_of(a);
    let tail = chars_of(b);
    append(&mut out, tail.as_slice());
    string_of(out.as_slice())
}

/// Three texts, one behind the other.
pub fn concat3(a: &str, b: &str, c: &str) -> (s: String)
    ensures
        s@ == a@ + b@ + c@,
{
    let ab = concat2(a, b);
    concat2(ab.as_str(), c)
}

/// Five texts, one behind the other.
pub fn concat5(a: &str, b: &str, c: &str, d: &str, e: &str) -> (s: String)
    ensures
        s@ == a@ + b@ + c@ + d@ + e@,
{
    let abc = concat3(a, b, c);
    concat3(abc.as_str(), d, e)
}

/// A number in decimal.
pub fn number_text(n: u32) -> (s: String)
    ensures
        s@ == decimal(n as nat),
{
    let digits = decimal_text(n as u64);
    string_of(digits.as_slice())
}

fn found(subject: &str, value: u32, context: String) -> (f: Finding)
    ensures
        f@ == (FindingView { subject: subject@, value, context: context@ }),
{
    Finding { subject: subject.to_owned(), value, context }
}

// ---------------------------------------------------------------------------
// Attributes and bodies
// ---------------------------------------------------------------------------

/// Whether an item carries the attribute called `name`.
pub open spec fn has_attribute(attributes: Seq<String>, name: Seq<char>) -> bool {
    lists(string_texts(attributes), name)
}

/// Whether some attribute path of the item holds the text `test`.
pub open spec fn has_test_like_attribute(attributes: Seq<String>) -> bool {
    exists|k: int| 0 <= k < attributes.len() && contains_text((#[trigger] attributes[k])@, "test"@)
}

/// Whether some attribute path of an item holds the text `test`.
pub fn test_like(attributes: &Vec<String>) -> (b: bool)
    ensures
        b == has_test_like_attribute(attributes@),
{
    let needle = chars_of("test");
    let mut k: usize = 0;
    while k < attributes.len()
        invariant
            k <= attributes.len(),
            needle@ == "test"@,
            forall|j: int| 0 <= j < k ==> !contains_text((#[trigger] attributes@[j])@, "test"@),
        decreases attributes.len() - k,
    {
        let a = chars_of(attributes[k].as_str());
        if contains(a.as_slice(), needle.as_slice()) {
            return true;
        }
        k += 1;
    }
    false
}

/// The one expression that makes up a function's body, if the body is a single
/// expression statement.
pub open spec fn sole_expression(f: FunctionInfo) -> Option<ExprShape> {
    if f.statement_count == 1 {
        match f.first_statement {
            Some(StmtShape::Expression(e)) => Some(e),
            _ => None,
        }
    } else {
        None
    }
}

/// A call of `name` with one argument, the empty tuple: `Ok(())`, `Some(())`.
pub open spec fn is_unit_call(e: ExprShape, name: Seq<char>) -> bool {
    match e {
        ExprShape::Call { callee: Some(c), arg_count, first_arg: Some(ArgShape::Tuple { elems }) } => {
            c@ == name && arg_count == 1 && elems == 0
        },
        _ => false,
    }
}

/// Whether an expression is a call of `name` with the empty tuple.
pub fn unit_call(e: &ExprShape, name: &str) -> (b: bool)
    ensures
        b == is_unit_call(*e, name@),
{
    match e {
        ExprShape::Call { callee: Some(c), arg_count, first_arg: Some(ArgShape::Tuple { elems }) } => {
            same_text(c.as_str(), name) && *arg_count == 1 && *elems == 0
        },
        _ => false,
    }
}

/// A success value that carries nothing: `Ok()`, `Ok(())` or `Ok(vec![])`.
pub open spec fn is_trivial_ok(e: ExprShape) -> bool {
    match e {
        ExprShape::Call { callee: Some(c), arg_count, first_arg } => c@ == "Ok"@ && (arg_count == 0
            || (arg_count == 1 && match first_arg {
            Some(ArgShape::Tuple { elems }) => elems == 0,
            Some(ArgShape::Macro { name: Some(n), tokens_empty }) => n@ == "vec"@ && tokens_empty,
            _ => false,
        })),
        _ => false,
    }
}

/// Whether an expression is a success value that carries nothing.
pub fn trivial_ok(e: &ExprShape) -> (b: bool)
    ensures
        b == is_trivial_ok(*e),
{
    match e {
        ExprShape::Call { callee: Some(c), arg_count, first_arg } => {
            if !same_text(c.as_str(), "Ok") {
                return false;
            }
            if *arg_count == 0 {
                return true;
            }
            if *arg_count != 1 {
                return false;
            }
            match first_arg {
                Some(ArgShape::Tuple { elems }) => *elems == 0,
                Some(ArgShape::Macro { name: Some(n), tokens_empty }) => same_text(n.as_str(), "vec")
                    && *tokens_empty,
                _ => false,
            }
        },
        _ => false,
    }
}

// ---------------------------------------------------------------------------
// Checks
// ---------------------------------------------------------------------------

/// A macro whose name is one of `names`.
pub open spec fn macro_call_at(names: Seq<Seq<char>>, kind: NodeKind) -> Option<FindingView> {
    match kind {
        NodeKind::Macro(m) => match m.name {
            Some(n) => if lists(names, n@) {
                Some(plain_finding(n@, n@ + "!()"@))
            } else {
                None
            },
            None => None,
        },
        _ => None,
    }
}

/// The finding for a macro whose name is one of `names`.
pub fn macro_call(names: &Vec<String>, kind: &NodeKind) -> (r: Option<Finding>)
    ensures
        option_view(r) == macro_call_at(string_texts(names@), *kind),
{
    match kind {
        NodeKind::Macro(m) => match &m.name {
            Some(n) => {
                if is_listed(names, n.as_str()) {
                    Some(found(n.as_str(), 0, concat2(n.as_str(), "!()")))
                } else {
                    None
                }
            },
            None => None,
        },
        _ => None,
    }
}

/// What an optional finding says.
pub open spec fn option_view(o: Option<Finding>) -> Option<FindingView> {
    match o {
        Some(f) => Some(f@),
        None => None,
    }
}

/// A function that is declared to return a `Result` and whose body is `Ok(())`.
pub open spec fn empty_ok_at(kind: NodeKind) -> Option<FindingView> {
    match kind {
        NodeKind::Function(f) => if opt_text(f.return_type) == Some("Result"@) && (match sole_expression(
            f,
        ) {
            Some(e) => is_unit_call(e, "Ok"@),
            None => false,
        }) {
            Some(plain_finding(""@, ""@))
        } else {
            None
        },
        _ => None,
    }
}

/// A function whose body is the single expression `Ok(())` is found when it is
/// declared to return a `Result`; a function with a statement before its last
/// expression never is.
pub proof fn lemma_trivial_success_body(f: FunctionInfo)
    ensures
        f.statement_count >= 2 ==> empty_ok_at(NodeKind::Function(f)) is None,
        opt_text(f.return_type) == Some("Result"@) && f.statement_count == 1 && (match f.first_statement {
            Some(StmtShape::Expression(e)) => is_unit_call(e, "Ok"@),
            _ => false,
        }) ==> empty_ok_at(NodeKind::Function(f)) is Some,
{
}

fn returns_type(f: &FunctionInfo, name: &str) -> (b: bool)
    ensures
        b == (opt_text(f.return_type) == Some(name@)),
{
    match &f.return_type {
        Some(t) => same_text(t.as_str(), name),
        None => false,
    }
}

/// The finding for a function whose body is `Ok(())`.
pub fn empty_ok(kind: &NodeKind) -> (r: Option<Finding>)
    ensures
        option_view(r) == empty_ok_at(*kind),
{
    match kind {
        NodeKind::Function(f) => {
            if !returns_type(f, "Result") || f.statement_count != 1 {
                return None;
            }
            match &f.first_statement {
                Some(StmtShape::Expression(e)) => {
                    if unit_call(e, "Ok") {
                        Some(found("", 0, "".to_owned()))
                    } else {
                        None
                    }
                },
                _ => None,
            }
        },
        _ => None,
    }
}

/// A function whose body is empty or holds only `()`.
pub open spec fn empty_body_at(kind: NodeKind) -> Option<FindingView> {
    match kind {
        NodeKind::Function(f) => if f.statement_count == 0 {
            Some(plain_finding(f.name@, "fn "@ + f.name@ + " { }"@))
        } else if sole_expression(f) matches Some(ExprShape::Tuple { elems }) && elems == 0 {
            Some(plain_finding(f.name@, "fn "@ + f.name@ + " { () }"@))
        } else {
            None
        },
        _ => None,
    }
}

/// The finding for a function with an empty body.
pub fn empty_body(kind: &NodeKind) -> (r: Option<Finding>)
    ensures
        option_view(r) == empty_body_at(*kind),
{
    match kind {
        NodeKind::Function(f) => {
            if f.statement_count == 0 {
                return Some(found(f.name.as_str(), 0, concat3("fn ", f.name.as_str(), " { }")));
            }
            if f.statement_count != 1 {
                return None;
            }
            match &f.first_statement {
                Some(StmtShape::Expression(ExprShape::Tuple { elems })) => {
                    if *elems == 0 {
                        Some(found(f.name.as_str(), 0, concat3("fn ", f.name.as_str(), " { () }")))
                    } else {
                        None
                    }
                },
                _ => None,
            }
        },
        _ => None,
    }
}

/// A message that tells nothing: empty, shorter than five bytes, or shorter than
/// ten bytes and naming only an "error" (in any letter case).
pub open spec fn is_unhelpful_message(m: Seq<char>) -> bool {
    utf8_len(m) < 5 || (contains_text(lowercase(m), "error"@) && utf8_len(m) < 10)
}

/// Whether a message tells nothing, given its lower-case form.
pub fn unhelpful_message(m: &str, lower: &str) -> (b: bool)
    requires
        lower@ == lowercase(m@),
    ensures
        b == is_unhelpful_message(m@),
{
    let chars = chars_of(m);
    if shorter_than(chars.as_slice(), 5) {
        return true;
    }
    let low = chars_of(lower);
    let needle = chars_of("error");
    contains(low.as_slice(), needle.as_slice()) && shorter_than(chars.as_slice(), 10)
}

/// A call of `unwrap`, or of `expect` without a message that helps.
pub open spec fn unwrap_at(kind: NodeKind) -> Option<FindingView> {
    match kind {
        NodeKind::MethodCall(c) => if c.method@ == "unwrap"@ {
            Some(plain_finding("unwrap"@, ".unwrap()"@))
        } else if c.method@ == "expect"@ {
            if c.arg_count == 0 {
                Some(plain_finding("expect"@, ".expect()"@))
            } else {
                match c.first_arg_literal {
                    Some(m) => if is_unhelpful_message(m@) {
                        Some(plain_finding("expect"@, ".expect(\""@ + m@ + "\")"@))
                    } else {
                        None
                    },
                    None => None,
                }
            }
        } else {
            None
        },
        _ => None,
    }
}

/// The finding for a call of `unwrap`, or of `expect` without a message that helps.
pub fn unwrap_call(kind: &NodeKind) -> (r: Option<Finding>)
    ensures
        option_view(r) == unwrap_at(*kind),
{
    match kind {
        NodeKind::MethodCall(c) => {
            if same_text(c.method.as_str(), "unwrap") {
                return Some(found("unwrap", 0, ".unwrap()".to_owned()));
            }
            if !same_text(c.method.as_str(), "expect") {
                return None;
            }
            if c.arg_count == 0 {
                return Some(found("expect", 0, ".expect()".to_owned()));
            }
            match &c.first_arg_literal {
                Some(m) => {
                    let lower = to_lowercase(m.as_str());
                    if unhelpful_message(m.as_str(), lower.as_str()) {
                        Some(found("expect", 0, concat3(".expect(\"", m.as_str(), "\")")))
                    } else {
                        None
                    }
                },
                None => None,
            }
        },
        _ => None,
    }
}

/// The keyword and name of a documented kind of item.
pub open spec fn item_title(kind: NodeKind) -> Option<(Seq<char>, Seq<char>, bool, Seq<String>)> {
    match kind {
        NodeKind::Function(f) => Some(("fn "@, f.name@, f.is_public, f.attributes@)),
        NodeKind::Struct(s) => Some(("struct "@, s.name@, s.is_public, s.attributes@)),
        NodeKind::Enum(s) => Some(("enum "@, s.name@, s.is_public, s.attributes@)),
        NodeKind::Trait(s) => Some(("trait "@, s.name@, s.is_public, s.attributes@)),
        _ => None,
    }
}

/// A public function, struct, enum or trait without a doc comment.
pub open spec fn undocumented_at(kind: NodeKind) -> Option<FindingView> {
    match item_title(kind) {
        Some((keyword, name, is_public, attributes)) => if is_public && !has_attribute(
            attributes,
            "doc"@,
        ) {
            Some(plain_finding(keyword + name, "pub "@ + keyword + name))
        } else {
            None
        },
        None => None,
    }
}

fn undocumented_item(keyword: &str, name: &str, is_public: bool, attributes: &Vec<String>) -> (r:
    Option<Finding>)
    ensures
        option_view(r) == (if is_public && !has_attribute(attributes@, "doc"@) {
            Some(plain_finding(keyword@ + name@, "pub "@ + keyword@ + name@))
        } else {
            None
        }),
{
    if is_public && !is_listed(attributes, "doc") {
        let subject = concat2(keyword, name);
        let context = concat3("pub ", keyword, name);
        assert(context@ =~= "pub "@ + (keyword@ + name@));
        Some(found(subject.as_str(), 0, context))
    } else {
        None
    }
}

/// The finding for a public item without a doc comment.
pub fn undocumented(kind: &NodeKind) -> (r: Option<Finding>)
    ensures
        option_view(r) == undocumented_at(*kind),
{
    match kind {
        NodeKind::Function(f) => undocumented_item("fn ", f.name.as_str(), f.is_public, &f.attributes),
        NodeKind::Struct(s) => undocumented_item(
            "struct ",
            s.name.as_str(),
            s.is_public,
            &s.attributes,
        ),
        NodeKind::Enum(s) => undocumented_item("enum ", s.name.as_str(), s.is_public, &s.attributes),
        NodeKind::Trait(s) => undocumented_item(
            "trait ",
            s.name.as_str(),
            s.is_public,
            &s.attributes,
        ),
        _ => None,
    }
}

/// A function with more than `threshold` arguments.
pub open spec fn many_args_at(threshold: u32, kind: NodeKind) -> Option<FindingView> {
    match kind {
        NodeKind::Function(f) => if crate::patterns::outline::clamped(f.arg_count as int)
            > threshold {
            let n = crate::patterns::outline::clamped(f.arg_count as int);
            Some(
                FindingView {
                    subject: f.name@,
                    value: n,
                    context: "fn "@ + f.name@ + " ("@ + decimal(n as nat) + " args)"@,
                },
            )
        } else {
            None
        },
        _ => None,
    }
}

/// The finding for a function with more arguments than the threshold.
pub fn many_args(threshold: u32, kind: &NodeKind) -> (r: Option<Finding>)
    ensures
        option_view(r) == many_args_at(threshold, *kind),
{
    match kind {
        NodeKind::Function(f) => {
            let n = crate::patterns::outline::clamp(f.arg_count);
            if n > threshold {
                let count = number_text(n);
                Some(
                    found(
                        f.name.as_str(),
                        n,
                        concat5("fn ", f.name.as_str(), " (", count.as_str(), " args)"),
                    ),
                )
            } else {
                None
            }
        },
        _ => None,
    }
}

/// A call that returns a future: a function whose name ends in `_async`, or one
/// of `spawn`, `spawn_blocking`, `timeout`, `sleep`.
pub open spec fn returns_future(name: Seq<char>) -> bool {
    has_suffix(name, "_async"@) || name == "spawn"@ || name == "spawn_blocking"@ || name
        == "timeout"@ || name == "sleep"@
}

/// A call of a function that returns a future.
pub open spec fn future_at(kind: NodeKind) -> Option<FindingView> {
    match kind {
        NodeKind::Call { callee: Some(n) } => if returns_future(n@) {
            Some(plain_finding(n@ + "()"@, n@ + "() not awaited"@))
        } else {
            None
        },
        _ => None,
    }
}

/// The finding for a call that returns a future.
pub fn future_call(kind: &NodeKind) -> (r: Option<Finding>)
    ensures
        option_view(r) == future_at(*kind),
{
    match kind {
        NodeKind::Call { callee: Some(n) } => {
            let name = chars_of(n.as_str());
            let suffix = chars_of("_async");
            if ends_with(name.as_slice(), suffix.as_slice()) || same_text(n.as_str(), "spawn")
                || same_text(n.as_str(), "spawn_blocking") || same_text(n.as_str(), "timeout")
                || same_text(n.as_str(), "sleep") {
                let subject = concat2(n.as_str(), "()");
                Some(found(subject.as_str(), 0, concat2(n.as_str(), "() not awaited")))
            } else {
                None
            }
        },
        _ => None,
    }
}

/// A `select!` whose text does not say `biased`.
pub open spec fn select_at(kind: NodeKind) -> Option<FindingView> {
    match kind {
        NodeKind::Macro(m) => if opt_text(m.name) == Some("select"@) && contains_text(
            m.text@,
            "select!"@,
        ) && !contains_text(m.text@, "biased"@) {
            Some(plain_finding(""@, "tokio::select! without biased"@))
        } else {
            None
        },
        _ => None,
    }
}

/// The finding for a `select!` that does not say `biased`.
pub fn select_macro(kind: &NodeKind) -> (r: Option<Finding>)
    ensures
        option_view(r) == select_at(*kind),
{
    match kind {
        NodeKind::Macro(m) => {
            if !crate::patterns::outline::option_says(&m.name, "select") {
                return None;
            }
            let text = chars_of(m.text.as_str());
            let call = chars_of("select!");
            let biased = chars_of("biased");
            if contains(text.as_slice(), call.as_slice()) && !contains(
                text.as_slice(),
                biased.as_slice(),
            ) {
                Some(found("", 0, "tokio::select! without biased".to_owned()))
            } else {
                None
            }
        },
        _ => None,
    }
}

/// An `impl` block that implements no trait.
pub open spec fn inherent_impl_at(kind: NodeKind) -> Option<FindingView> {
    match kind {
        NodeKind::Impl(i) => if !i.has_trait {
            let name = match i.self_type {
                Some(t) => t@,
                None => "Unknown"@,
            };
            Some(plain_finding(name, "impl "@ + name))
        } else {
            None
        },
        _ => None,
    }
}

/// The finding for an `impl` block that implements no trait.
pub fn inherent_impl(kind: &NodeKind) -> (r: Option<Finding>)
    ensures
        option_view(r) == inherent_impl_at(*kind),
{
    match kind {
        NodeKind::Impl(i) => {
            if i.has_trait {
                return None;
            }
            match &i.self_type {
                Some(t) => Some(found(t.as_str(), 0, concat2("impl ", t.as_str()))),
                None => Some(found("Unknown", 0, concat2("impl ", "Unknown"))),
            }
        },
        _ => None,
    }
}

/// An `unsafe` block or an `unsafe` function.
pub open spec fn unsafe_at(kind: NodeKind) -> Option<FindingView> {
    match kind {
        NodeKind::Unsafe => Some(plain_finding(""@, "unsafe block"@)),
        NodeKind::Function(f) => if f.is_unsafe {
            Some(plain_finding(""@, "unsafe fn "@ + f.name@))
        } else {
            None
        },
        _ => None,
    }
}

/// The finding for an `unsafe` block or function.
pub fn unsafe_code(kind: &NodeKind) -> (r: Option<Finding>)
    ensures
        option_view(r) == unsafe_at(*kind),
{
    match kind {
        NodeKind::Unsafe => Some(found("", 0, "unsafe block".to_owned())),
        NodeKind::Function(f) => {
            if f.is_unsafe {
                Some(found("", 0, concat2("unsafe fn ", f.name.as_str())))
            } else {
                None
            }
        },
        _ => None,
    }
}

/// A test function that is marked to be ignored.
pub open spec fn ignored_test_at(kind: NodeKind) -> Option<FindingView> {
    match kind {
        NodeKind::Function(f) => if has_attribute(f.attributes@, "test"@) && has_attribute(
            f.attributes@,
            "ignore"@,
        ) {
            Some(plain_finding(f.name@, "#[ignore] #[test] fn "@ + f.name@))
        } else {
            None
        },
        _ => None,
    }
}

/// The finding for a test function that is ignored.
pub fn ignored_test(kind: &NodeKind) -> (r: Option<Finding>)
    ensures
        option_view(r) == ignored_test_at(*kind),
{
    match kind {
        NodeKind::Function(f) => {
            if is_listed(&f.attributes, "test") && is_listed(&f.attributes, "ignore") {
                Some(found(f.name.as_str(), 0, concat2("#[ignore] #[test] fn ", f.name.as_str())))
            } else {
                None
            }
        },
        _ => None,
    }
}

/// The type parameters among the first `n` that have no bounds, each with the
/// given text before its name in the context.
pub open spec fn unbounded(params: Seq<TypeParam>, lead: Seq<char>, n: int) -> Seq<FindingView>
    decreases n,
{
    if n <= 0 {
        Seq::<FindingView>::empty()
    } else if params[n - 1].bounds == 0 {
        unbounded(params, lead, n - 1).push(
            plain_finding(params[n - 1].name@, lead + params[n - 1].name@ + ">"@),
        )
    } else {
        unbounded(params, lead, n - 1)
    }
}

/// The type parameters without bounds of a function or a struct.
pub open spec fn unbounded_at(kind: NodeKind) -> Seq<FindingView> {
    match kind {
        NodeKind::Function(f) => unbounded(f.type_params@, "<"@, f.type_params@.len() as int),
        NodeKind::Struct(s) => unbounded(
            s.type_params@,
            "struct "@ + s.name@ + "<"@,
            s.type_params@.len() as int,
        ),
        _ => Seq::<FindingView>::empty(),
    }
}

fn unbounded_params(params: &Vec<TypeParam>, lead: &str) -> (out: Vec<Finding>)
    ensures
        finding_views(out@) == unbounded(params@, lead@, params@.len() as int),
{
    let mut out: Vec<Finding> = Vec::new();
    let mut k: usize = 0;
    assert(finding_views(out@) =~= unbounded(params@, lead@, 0));
    while k < params.len()
        invariant
            k <= params.len(),
            finding_views(out@) == unbounded(params@, lead@, k as int),
        decreases params.len() - k,
    {
        if params[k].bounds == 0 {
            let f = found(params[k].name.as_str(), 0, concat3(lead, params[k].name.as_str(), ">"));
            assert(finding_views(out@.push(f)) =~= finding_views(out@).push(f@));
            out.push(f);
        }
        k += 1;
    }
    out
}

/// The findings for the type parameters without bounds of a function or a struct.
pub fn unbounded_generics(kind: &NodeKind) -> (out: Vec<Finding>)
    ensures
        finding_views(out@) == unbounded_at(*kind),
{
    match kind {
        NodeKind::Function(f) => unbounded_params(&f.type_params, "<"),
        NodeKind::Struct(s) => {
            let lead = concat3("struct ", s.name.as_str(), "<");
            unbounded_params(&s.type_params, lead.as_str())
        },
        _ => {
            let out: Vec<Finding> = Vec::new();
            assert(finding_views(out@) =~= Seq::<FindingView>::empty());
            out
        },
    }
}

} // verus!
