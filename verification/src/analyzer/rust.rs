//! Checks that are specific to Rust source files.

use vstd::prelude::*;
use crate::bindings::Timestamp;
use crate::domain::violations::{GuardianError, Severity, Violation, ViolationView};
use crate::paths::{base_name, file_name, is_rust_path, rust_path};
use crate::patterns::checks::{
    concat3, has_attribute, has_test_like_attribute, is_trivial_ok, is_unit_call, sole_expression,
    test_like, trivial_ok, unit_call,
};
use crate::patterns::outline::{clamp, clamped, is_listed};
use crate::syntax::{NodeKind, StmtShape, SyntaxNode, SyntaxTree, well_formed};
use crate::text::{chars_of, contains, contains_text, same_text, string_of};
use crate::textlines::{lines, lines_of, texts, trim, trimmed};
use crate::domain::violations::opt_text;

verus! {

/// Checks Rust source files for unfinished code and missing headers.
#[derive(Debug, Clone, Copy, PartialEq, Eq, Structural)]
pub struct RustAnalyzer {
    /// Whether test code is analyzed as well.
    pub analyze_tests: bool,
    /// Whether files are checked for a header comment.
    pub check_cdd_compliance: bool,
}

/// Something custom that analyzes files.
pub trait FileAnalyzer {
    /// The violations of one file, given its text and, if it could be parsed,
    /// its syntax tree.
    fn analyze(&self, file_path: &str, content: &str, tree: Option<&SyntaxTree>) -> Result<
        Vec<Violation>,
        GuardianError,
    >;

    /// Whether this analyzer is meant for the file.
    fn handles_file(&self, file_path: &str) -> bool;
}

/// A violation as a rule describes it; the time of detection is not part of it.
pub open spec fn says(v: ViolationView, expected: ViolationView) -> bool {
    v == (ViolationView { detected_at: v.detected_at, ..expected })
}

/// Whether a list of violations is what was expected, violation by violation,
/// whenever each was detected.
pub open spec fn agree(found: Seq<Violation>, expected: Seq<ViolationView>) -> bool {
    found.len() == expected.len() && forall|i: int|
        0 <= i < found.len() ==> says((#[trigger] found[i])@, expected[i])
}

/// The time that stands in violations as rules describe them.
pub open spec fn no_time() -> Timestamp {
    Timestamp { secs: 0, nanos: 0 }
}

/// Whether a text looks like it holds tests.
pub open spec fn holds_tests(content: Seq<char>) -> bool {
    contains_text(content, "#[cfg(test)]"@) || contains_text(content, "#[test]"@) || contains_text(
        content,
        "mod tests"@,
    )
}

/// Whether a file is exempt from the header check: tests, benchmarks and
/// examples are.
pub open spec fn is_exempt_from_header(path: Seq<char>) -> bool {
    contains_text(path, "/tests/"@) || contains_text(path, "/test/"@) || contains_text(
        path,
        "/benches/"@,
    ) || contains_text(path, "/examples/"@) || (match base_name(path) {
        Some(name) => contains_text(name, "test"@),
        None => false,
    })
}

/// The violation for a file without a header comment.
pub open spec fn header_notice(path: Seq<char>) -> ViolationView {
    ViolationView {
        rule_id: "cdd_header_missing"@,
        severity: Severity::Info,
        file_path: path,
        line_number: Some(1),
        column_number: Some(1),
        message: "File missing CDD principle header comment"@,
        context: None,
        suggested_fix: Some(
            "Add a header comment explaining which CDD principle this file exemplifies"@,
        ),
        detected_at: no_time(),
    }
}

/// Whether a function is a test: it carries an attribute whose path holds `test`.
pub open spec fn is_test_function(kind: NodeKind) -> bool {
    match kind {
        NodeKind::Function(f) => has_attribute(f.attributes@, "test"@) || has_test_like_attribute(
            f.attributes@,
        ),
        _ => false,
    }
}

/// Whether node `j` is a test function or stands inside one.
pub open spec fn in_test_function(nodes: Seq<SyntaxNode>, j: int) -> bool
    decreases j,
{
    if j < 0 || j >= nodes.len() {
        false
    } else {
        is_test_function(nodes[j].kind) || (match nodes[j].parent {
            Some(p) => p < j && in_test_function(nodes, p as int),
            None => false,
        })
    }
}

/// Whether a macro stands for unfinished code.
pub open spec fn is_unfinished_macro(name: Seq<char>) -> bool {
    name == "unimplemented"@ || name == "todo"@ || name == "panic"@
}

/// The violation for an unfinished macro.
pub open spec fn macro_notice(name: Seq<char>) -> ViolationView {
    ViolationView {
        rule_id: name + "_macro"@,
        severity: if name == "panic"@ {
            Severity::Warning
        } else {
            Severity::Error
        },
        file_path: ""@,
        line_number: Some(1),
        column_number: Some(1),
        message: if name == "unimplemented"@ {
            "Unimplemented macro found - function needs implementation"@
        } else if name == "todo"@ {
            "TODO macro found - incomplete implementation"@
        } else {
            "Panic macro found: "@ + name
        },
        context: Some(""@),
        suggested_fix: None,
        detected_at: no_time(),
    }
}

/// The violation for a function that returns a success that carries nothing.
pub open spec fn empty_return_notice(path: Seq<char>, name: Seq<char>) -> ViolationView {
    ViolationView {
        rule_id: "empty_ok_return"@,
        severity: Severity::Error,
        file_path: path,
        line_number: Some(1),
        column_number: Some(1),
        message: "Function '"@ + name + "' returns Ok(()) with no meaningful implementation"@,
        context: Some(""@),
        suggested_fix: Some("Implement the function logic or remove if not needed"@),
        detected_at: no_time(),
    }
}

/// The violation for an import of the substrate.
pub open spec fn substrate_notice(path: Seq<char>) -> ViolationView {
    ViolationView {
        rule_id: "direct_substrate_access"@,
        severity: Severity::Warning,
        file_path: path,
        line_number: Some(1),
        column_number: Some(1),
        message: "Direct substrate access may violate architectural boundaries"@,
        context: None,
        suggested_fix: Some(
            "Consider accessing substrate through designated services or repositories"@,
        ),
        detected_at: no_time(),
    }
}

/// What the check for unfinished macros reports at node `i`.
pub open spec fn macro_notice_at(nodes: Seq<SyntaxNode>, skip_tests: bool, i: int) -> Seq<
    ViolationView,
> {
    match nodes[i].kind {
        NodeKind::Macro(m) => match m.name {
            Some(n) => if is_unfinished_macro(n@) && !(skip_tests && in_test_function(nodes, i)) {
                seq![macro_notice(n@)]
            } else {
                Seq::<ViolationView>::empty()
            },
            None => Seq::<ViolationView>::empty(),
        },
        _ => Seq::<ViolationView>::empty(),
    }
}

/// What the check for empty returns reports at node `i`: a function that is
/// declared to return a `Result` or an `Option` and whose body is a single
/// success value that carries nothing.
pub open spec fn empty_return_at(nodes: Seq<SyntaxNode>, skip_tests: bool, path: Seq<char>, i: int)
    -> Seq<ViolationView> {
    match nodes[i].kind {
        NodeKind::Function(f) => if !(skip_tests && in_test_function(nodes, i)) && (opt_text(
            f.return_type,
        ) == Some("Result"@) || opt_text(f.return_type) == Some("Option"@)) && (match sole_expression(
            f,
        ) {
            Some(e) => is_trivial_ok(e) || is_unit_call(e, "Some"@),
            None => false,
        }) {
            seq![empty_return_notice(path, f.name@)]
        } else {
            Seq::<ViolationView>::empty()
        },
        _ => Seq::<ViolationView>::empty(),
    }
}

/// Whether imports of the substrate are allowed in a file.
pub open spec fn allows_substrate(path: Seq<char>) -> bool {
    contains_text(path, "tests/"@) || contains_text(path, "examples/"@)
}

/// What the check for imports reports at node `i`.
pub open spec fn substrate_at(nodes: Seq<SyntaxNode>, path: Seq<char>, i: int) -> Seq<ViolationView> {
    match nodes[i].kind {
        NodeKind::Use { text } => if contains_text(text@, "substrate"@) && !allows_substrate(path) {
            seq![substrate_notice(path)]
        } else {
            Seq::<ViolationView>::empty()
        },
        _ => Seq::<ViolationView>::empty(),
    }
}

/// The three checks on the syntax tree.
pub enum TreeCheck {
    UnfinishedMacros,
    EmptyReturns,
    SubstrateImports,
}

/// What a check on the tree reports at node `i`.
pub open spec fn notices_at(
    nodes: Seq<SyntaxNode>,
    check: TreeCheck,
    skip_tests: bool,
    path: Seq<char>,
    i: int,
) -> Seq<ViolationView> {
    match check {
        TreeCheck::UnfinishedMacros => macro_notice_at(nodes, skip_tests, i),
        TreeCheck::EmptyReturns => empty_return_at(nodes, skip_tests, path, i),
        TreeCheck::SubstrateImports => substrate_at(nodes, path, i),
    }
}

/// What a check on the tree reports at the first `n` nodes, in source order.
pub open spec fn notices(
    nodes: Seq<SyntaxNode>,
    check: TreeCheck,
    skip_tests: bool,
    path: Seq<char>,
    n: int,
) -> Seq<ViolationView>
    decreases n,
{
    if n <= 0 {
        Seq::<ViolationView>::empty()
    } else {
        notices(nodes, check, skip_tests, path, n - 1) + notices_at(
            nodes,
            check,
            skip_tests,
            path,
            n - 1,
        )
    }
}

/// What the header check reports.
pub open spec fn header_notices(a: RustAnalyzer, content: Seq<char>, path: Seq<char>) -> Seq<
    ViolationView,
> {
    if a.check_cdd_compliance && !is_exempt_from_header(path) && !contains_text(
        content,
        "CDD Principle:"@,
    ) {
        seq![header_notice(path)]
    } else {
        Seq::<ViolationView>::empty()
    }
}

/// Everything the analyzer reports for a file: nothing when the file could not
/// be parsed; else unfinished macros, empty returns, imports of the substrate
/// and a missing header, in this order.
pub open spec fn analysis(
    a: RustAnalyzer,
    path: Seq<char>,
    content: Seq<char>,
    tree: Option<Seq<SyntaxNode>>,
) -> Seq<ViolationView> {
    match tree {
        Some(nodes) => {
            let skip = !a.analyze_tests && holds_tests(content);
            notices(nodes, TreeCheck::UnfinishedMacros, skip, path, nodes.len() as int) + notices(
                nodes,
                TreeCheck::EmptyReturns,
                skip,
                path,
                nodes.len() as int,
            ) + notices(nodes, TreeCheck::SubstrateImports, skip, path, nodes.len() as int)
                + header_notices(a, content, path)
        },
        None => Seq::<ViolationView>::empty(),
    }
}

/// Two lists that are as expected are as expected when joined.
pub proof fn lemma_agree_joined(
    a: Seq<Violation>,
    b: Seq<Violation>,
    x: Seq<ViolationView>,
    y: Seq<ViolationView>,
)
    requires
        agree(a, x),
        agree(b, y),
    ensures
        agree(a + b, x + y),
{
    assert forall|i: int| 0 <= i < (a + b).len() implies says((#[trigger] (a + b)[i])@, (x + y)[i]) by {
        if i < a.len() {
            assert((a + b)[i] == a[i]);
            assert((x + y)[i] == x[i]);
        } else {
            assert((a + b)[i] == b[i - a.len()]);
            assert((x + y)[i] == y[i - a.len()]);
        }
    }
}

fn test_function(kind: &NodeKind) -> (b: bool)
    ensures
        b == is_test_function(*kind),
{
    match kind {
        NodeKind::Function(f) => is_listed(&f.attributes, "test") || test_like(&f.attributes),
        _ => false,
    }
}

fn inside_test_function(nodes: &Vec<SyntaxNode>, j: usize) -> (b: bool)
    requires
        well_formed(nodes@),
        j < nodes@.len(),
    ensures
        b == in_test_function(nodes@, j as int),
{
    let mut at: usize = j;
    loop
        invariant
            well_formed(nodes@),
            at < nodes@.len(),
            in_test_function(nodes@, at as int) == in_test_function(nodes@, j as int),
        decreases at,
    {
        if test_function(&nodes[at].kind) {
            return true;
        }
        match nodes[at].parent {
            Some(p) => {
                at = p;
            },
            None => {
                return false;
            },
        }
    }
}

fn unfinished_macro(name: &str) -> (b: bool)
    ensures
        b == is_unfinished_macro(name@),
{
    same_text(name, "unimplemented") || same_text(name, "todo") || same_text(name, "panic")
}

fn one(v: Violation) -> (out: Vec<Violation>)
    ensures
        out@ == seq![v],
{
    let mut out: Vec<Violation> = Vec::new();
    out.push(v);
    assert(out@ =~= seq![v]);
    out
}

fn none() -> (out: Vec<Violation>)
    ensures
        out@ == Seq::<Violation>::empty(),
{
    let out: Vec<Violation> = Vec::new();
    assert(out@ =~= Seq::<Violation>::empty());
    out
}

fn notices_of_node(
    nodes: &Vec<SyntaxNode>,
    check: &TreeCheck,
    skip_tests: bool,
    path: &str,
    i: usize,
) -> (out: Vec<Violation>)
    requires
        well_formed(nodes@),
        i < nodes@.len(),
    ensures
        agree(out@, notices_at(nodes@, *check, skip_tests, path@, i as int)),
{
    match check {
        TreeCheck::UnfinishedMacros => match &nodes[i].kind {
            NodeKind::Macro(m) => match &m.name {
                Some(n) => {
                    if !unfinished_macro(n.as_str()) || (skip_tests && inside_test_function(
                        nodes,
                        i,
                    )) {
                        return none();
                    }
                    let rule_id = crate::patterns::checks::concat2(n.as_str(), "_macro");
                    let severity = if same_text(n.as_str(), "panic") {
                        Severity::Warning
                    } else {
                        Severity::Error
                    };
                    let message = if same_text(n.as_str(), "unimplemented") {
                        "Unimplemented macro found - function needs implementation".to_owned()
                    } else if same_text(n.as_str(), "todo") {
                        "TODO macro found - incomplete implementation".to_owned()
                    } else {
                        crate::patterns::checks::concat2("Panic macro found: ", n.as_str())
                    };
                    let v = Violation::new(rule_id.as_str(), severity, "", message.as_str())
                        .with_position(1, 1).with_context("");
                    assert(says(v@, macro_notice(n@)));
                    one(v)
                },
                None => none(),
            },
            _ => none(),
        },
        TreeCheck::EmptyReturns => match &nodes[i].kind {
            NodeKind::Function(f) => {
                if skip_tests && inside_test_function(nodes, i) {
                    return none();
                }
                let declared = match &f.return_type {
                    Some(t) => same_text(t.as_str(), "Result") || same_text(t.as_str(), "Option"),
                    None => false,
                };
                if !declared || f.statement_count != 1 {
                    return none();
                }
                match &f.first_statement {
                    Some(StmtShape::Expression(e)) => {
                        if trivial_ok(e) || unit_call(e, "Some") {
                            let message = concat3(
                                "Function '",
                                f.name.as_str(),
                                "' returns Ok(()) with no meaningful implementation",
                            );
                            let v = Violation::new(
                                "empty_ok_return",
                                Severity::Error,
                                path,
                                message.as_str(),
                            ).with_position(1, 1).with_context("").with_suggestion(
                                "Implement the function logic or remove if not needed",
                            );
                            assert(says(v@, empty_return_notice(path@, f.name@)));
                            one(v)
                        } else {
                            none()
                        }
                    },
                    _ => none(),
                }
            },
            _ => none(),
        },
        TreeCheck::SubstrateImports => match &nodes[i].kind {
            NodeKind::Use { text } => {
                let t = chars_of(text.as_str());
                let p = chars_of(path);
                let word = chars_of("substrate");
                let tests = chars_of("tests/");
                let examples = chars_of("examples/");
                if contains(t.as_slice(), word.as_slice()) && !(contains(
                    p.as_slice(),
                    tests.as_slice(),
                ) || contains(p.as_slice(), examples.as_slice())) {
                    let v = Violation::new(
                        "direct_substrate_access",
                        Severity::Warning,
                        path,
                        "Direct substrate access may violate architectural boundaries",
                    ).with_position(1, 1).with_suggestion(
                        "Consider accessing substrate through designated services or repositories",
                    );
                    assert(says(v@, substrate_notice(path@)));
                    one(v)
                } else {
                    none()
                }
            },
            _ => none(),
        },
    }
}

fn scan(tree: &SyntaxTree, check: &TreeCheck, skip_tests: bool, path: &str) -> (out: Vec<Violation>)
    ensures
        agree(out@, notices(tree@, *check, skip_tests, path@, tree@.len() as int)),
{
    let nodes = tree.nodes();
    let mut out: Vec<Violation> = Vec::new();
    let mut i: usize = 0;
    while i < nodes.len()
        invariant
            i <= nodes.len(),
            well_formed(nodes@),
            agree(out@, notices(nodes@, *check, skip_tests, path@, i as int)),
        decreases nodes.len() - i,
    {
        let mut here = notices_of_node(nodes, check, skip_tests, path, i);
        proof {
            lemma_agree_joined(
                out@,
                here@,
                notices(nodes@, *check, skip_tests, path@, i as int),
                notices_at(nodes@, *check, skip_tests, path@, i as int),
            );
        }
        out.append(&mut here);
        i += 1;
    }
    out
}

impl RustAnalyzer {
    /// An analyzer that leaves test code alone and checks for headers.
    pub fn new() -> (a: RustAnalyzer)
        ensures
            a == (RustAnalyzer { analyze_tests: false, check_cdd_compliance: true }),
    {
        RustAnalyzer { analyze_tests: false, check_cdd_compliance: true }
    }

    /// An analyzer that analyzes test code too.
    pub fn with_tests() -> (a: RustAnalyzer)
        ensures
            a == (RustAnalyzer { analyze_tests: true, check_cdd_compliance: true }),
    {
        RustAnalyzer { analyze_tests: true, check_cdd_compliance: true }
    }

    /// Whether a text looks like it holds tests.
    pub fn is_test_file_content(&self, content: &str) -> (b: bool)
        ensures
            b == holds_tests(content@),
    {
        let c = chars_of(content);
        let cfg = chars_of("#[cfg(test)]");
        let test = chars_of("#[test]");
        let module = chars_of("mod tests");
        contains(c.as_slice(), cfg.as_slice()) || contains(c.as_slice(), test.as_slice())
            || contains(c.as_slice(), module.as_slice())
    }

    /// Whether a file is exempt from the header check.
    pub fn is_excluded_from_cdd_check(&self, file_path: &str) -> (b: bool)
        ensures
            b == is_exempt_from_header(file_path@),
    {
        let p = chars_of(file_path);
        let tests = chars_of("/tests/");
        let test = chars_of("/test/");
        let benches = chars_of("/benches/");
        let examples = chars_of("/examples/");
        if contains(p.as_slice(), tests.as_slice()) || contains(p.as_slice(), test.as_slice())
            || contains(p.as_slice(), benches.as_slice()) || contains(
            p.as_slice(),
            examples.as_slice(),
        ) {
            return true;
        }
        match file_name(p.as_slice()) {
            Some(name) => {
                let word = chars_of("test");
                contains(name.as_slice(), word.as_slice())
            },
            None => false,
        }
    }

    /// Checks a file for its header comment.
    pub fn check_cdd_compliance(&self, content: &str, file_path: &str) -> (out: Vec<Violation>)
        ensures
            agree(out@, header_notices(*self, content@, file_path@)),
    {
        if !self.check_cdd_compliance || self.is_excluded_from_cdd_check(file_path) {
            return none();
        }
        let c = chars_of(content);
        let marker = chars_of("CDD Principle:");
        if contains(c.as_slice(), marker.as_slice()) {
            return none();
        }
        let v = Violation::new(
            "cdd_header_missing",
            Severity::Info,
            file_path,
            "File missing CDD principle header comment",
        ).with_position(1, 1).with_suggestion(
            "Add a header comment explaining which CDD principle this file exemplifies",
        );
        assert(says(v@, header_notice(file_path@)));
        one(v)
    }

    /// The unfinished macros of a file.
    pub fn find_unimplemented_macros(&self, tree: &SyntaxTree, content: &str) -> (out: Vec<Violation>)
        ensures
            agree(
                out@,
                notices(
                    tree@,
                    TreeCheck::UnfinishedMacros,
                    !self.analyze_tests && holds_tests(content@),
                    ""@,
                    tree@.len() as int,
                ),
            ),
    {
        let skip = !self.analyze_tests && self.is_test_file_content(content);
        let out = scan(tree, &TreeCheck::UnfinishedMacros, skip, "");
        out
    }

    /// The functions of a file that return a success that carries nothing.
    pub fn find_empty_ok_returns(&self, tree: &SyntaxTree, content: &str, file_path: &str) -> (out:
        Vec<Violation>)
        ensures
            agree(
                out@,
                notices(
                    tree@,
                    TreeCheck::EmptyReturns,
                    !self.analyze_tests && holds_tests(content@),
                    file_path@,
                    tree@.len() as int,
                ),
            ),
    {
        let skip = !self.analyze_tests && self.is_test_file_content(content);
        scan(tree, &TreeCheck::EmptyReturns, skip, file_path)
    }

    /// The imports of a file that reach into the substrate.
    pub fn find_architectural_violations(&self, tree: &SyntaxTree, file_path: &str) -> (out: Vec<
        Violation,
    >)
        ensures
            forall|skip: bool|
                agree(
                    out@,
                    #[trigger] notices(
                        tree@,
                        TreeCheck::SubstrateImports,
                        skip,
                        file_path@,
                        tree@.len() as int,
                    ),
                ),
    {
        let out = scan(tree, &TreeCheck::SubstrateImports, false, file_path);
        proof {
            assert forall|skip: bool|
                agree(
                    out@,
                    #[trigger] notices(
                        tree@,
                        TreeCheck::SubstrateImports,
                        skip,
                        file_path@,
                        tree@.len() as int,
                    ),
                ) by {
                lemma_imports_ignore_tests(tree@, skip, file_path@, tree@.len() as int);
            }
        }
        out
    }

    /// Everything the analyzer reports for a file. A file that could not be
    /// parsed is not assessed.
    pub fn analyze(&self, file_path: &str, content: &str, tree: Option<&SyntaxTree>) -> (r: Result<
        Vec<Violation>,
        GuardianError,
    >)
        ensures
            r is Ok,
            agree(
                r->Ok_0@,
                analysis(*self, file_path@, content@, crate::patterns::tree_view(tree)),
            ),
    {
        let t = match tree {
            Some(t) => t,
            None => {
                return Ok(none());
            },
        };
        let ghost skip = !self.analyze_tests && holds_tests(content@);
        let mut out = self.find_unimplemented_macros(t, content);
        // The macros are reported without a path; the path is kept out of them.
        let mut empties = self.find_empty_ok_returns(t, content, file_path);
        proof {
            lemma_macros_ignore_path(t@, skip, ""@, file_path@, t@.len() as int);
            lemma_agree_joined(
                out@,
                empties@,
                notices(t@, TreeCheck::UnfinishedMacros, skip, file_path@, t@.len() as int),
                notices(t@, TreeCheck::EmptyReturns, skip, file_path@, t@.len() as int),
            );
        }
        let ghost first = out@ + empties@;
        out.append(&mut empties);
        let mut imports = self.find_architectural_violations(t, file_path);
        proof {
            lemma_agree_joined(
                first,
                imports@,
                notices(t@, TreeCheck::UnfinishedMacros, skip, file_path@, t@.len() as int)
                    + notices(t@, TreeCheck::EmptyReturns, skip, file_path@, t@.len() as int),
                notices(t@, TreeCheck::SubstrateImports, skip, file_path@, t@.len() as int),
            );
        }
        let ghost second = first + imports@;
        out.append(&mut imports);
        let mut header = self.check_cdd_compliance(content, file_path);
        proof {
            lemma_agree_joined(
                second,
                header@,
                notices(t@, TreeCheck::UnfinishedMacros, skip, file_path@, t@.len() as int)
                    + notices(t@, TreeCheck::EmptyReturns, skip, file_path@, t@.len() as int)
                    + notices(t@, TreeCheck::SubstrateImports, skip, file_path@, t@.len() as int),
                header_notices(*self, content@, file_path@),
            );
        }
        out.append(&mut header);
        Ok(out)
    }

    /// Whether the analyzer is meant for a file: Rust source files are.
    pub fn handles_file(&self, file_path: &str) -> (b: bool)
        ensures
            b == is_rust_path(file_path@),
    {
        let p = chars_of(file_path);
        rust_path(p.as_slice())
    }
}

impl Default for RustAnalyzer {
    /// An analyzer with every option off.
    fn default() -> (a: RustAnalyzer)
        ensures
            a == (RustAnalyzer { analyze_tests: false, check_cdd_compliance: false }),
    {
        RustAnalyzer { analyze_tests: false, check_cdd_compliance: false }
    }
}

impl FileAnalyzer for RustAnalyzer {
    /// Everything the analyzer reports for a file; see [`RustAnalyzer::analyze`].
    fn analyze(&self, file_path: &str, content: &str, tree: Option<&SyntaxTree>) -> (r: Result<
        Vec<Violation>,
        GuardianError,
    >)
        ensures
            r is Ok,
            agree(
                r->Ok_0@,
                analysis(*self, file_path@, content@, crate::patterns::tree_view(tree)),
            ),
    {
        RustAnalyzer::analyze(self, file_path, content, tree)
    }

    /// Whether the path names a Rust source file.
    fn handles_file(&self, file_path: &str) -> (b: bool)
        ensures
            b == is_rust_path(file_path@),
    {
        RustAnalyzer::handles_file(self, file_path)
    }
}

/// The check for unfinished macros does not look at the path.
proof fn lemma_macros_ignore_path(
    nodes: Seq<SyntaxNode>,
    skip: bool,
    a: Seq<char>,
    b: Seq<char>,
    n: int,
)
    ensures
        notices(nodes, TreeCheck::UnfinishedMacros, skip, a, n) == notices(
            nodes,
            TreeCheck::UnfinishedMacros,
            skip,
            b,
            n,
        ),
    decreases n,
{
    if n > 0 {
        lemma_macros_ignore_path(nodes, skip, a, b, n - 1);
    }
}

/// The check for imports does not look at tests.
proof fn lemma_imports_ignore_tests(nodes: Seq<SyntaxNode>, skip: bool, path: Seq<char>, n: int)
    ensures
        notices(nodes, TreeCheck::SubstrateImports, skip, path, n) == notices(
            nodes,
            TreeCheck::SubstrateImports,
            false,
            path,
            n,
        ),
    decreases n,
{
    if n > 0 {
        lemma_imports_ignore_tests(nodes, skip, path, n - 1);
    }
}

/// The context of a line of a text.
pub open spec fn line_of(content: Seq<char>, line: int) -> Seq<char> {
    if 0 < line <= lines_of(content).len() {
        trimmed(lines_of(content)[line - 1])
    } else {
        ""@
    }
}

/// Line and column as given, with the text of that line, trimmed; the text is
/// empty when the content has no such line.
pub fn get_location_from_span(content: &str, line: usize, column: usize) -> (r: (u32, u32, String))
    ensures
        r.0 == clamped(line as int),
        r.1 == clamped(column as int),
        r.2@ == line_of(content@, line as int),
{
    let c = chars_of(content);
    let all = lines(c.as_slice());
    assert(texts(all@).len() == all@.len());
    if line > 0 && line <= all.len() {
        assert(texts(all@)[line - 1] == all@[line - 1]@);
        let context = trim(all[line - 1].as_slice());
        (clamp(line), clamp(column), string_of(context.as_slice()))
    } else {
        (clamp(line), clamp(column), "".to_owned())
    }
}

} // verus!
