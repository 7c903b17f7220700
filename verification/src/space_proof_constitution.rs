//! A static-analysis constitution in the style of safety-critical coding
//! rules: per-function measurements roll up into rule flags, and violations
//! are collected into a structured report.

use vstd::prelude::*;
use vstd::string::{StringExecFns, StringSliceAdditionalSpecFns};

verus! {

/// A failure while registering an analysis.
#[derive(Debug)]
pub enum AnalysisError {
    RegistrationFailed(&'static str),
    InternalError,
}

/// A failure of the constitution's own state machine.
#[derive(Debug)]
pub enum SpaceProofError {
    InvalidState,
    IterationLimitExceeded,
}

/// A failure while checking a build.
#[derive(Debug)]
pub enum BuildError {
    ConfigurationMismatch(&'static str),
    CompilationFailed,
}

/// What a compliant build must have switched on.
pub struct BuildCompliance {
    pub warnings_as_errors: bool,
    pub no_unsafe_code: bool,
    pub no_recursion: bool,
    pub panic_abort: bool,
    pub stack_size_verified: bool,
    pub heap_usage_zero: bool,
    pub total_warnings: u32,
    pub total_errors: u32,
}

/// The sibling constitution a capability may link to.
pub struct QuartoCaminhoConstitution;

/// A capability with explicit permissions and address bounds.
pub struct Capability {
    pub object: usize,
    pub permissions: u32,
    pub bounds_min: usize,
    pub bounds_max: usize,
}

impl Capability {
    /// A capability over one object's address range, with every permission.
    pub fn new(base: usize, size: usize) -> (r: Self)
        requires
            base + size <= usize::MAX,
        ensures
            r.object == base,
            r.permissions == 0xFFFF_FFFFu32,
            r.bounds_min == base,
            r.bounds_max == base + size,
    {
        Capability {
            object: base,
            permissions: 0xFFFF_FFFF,
            bounds_min: base,
            bounds_max: base + size,
        }
    }

    /// Whether the capability permits reading.
    pub fn can_read(&self) -> (r: bool)
        ensures
            r == ((self.permissions & 0x1) != 0),
    {
        (self.permissions & 0x1) != 0
    }

    /// Whether the capability permits writing.
    pub fn can_write(&self) -> (r: bool)
        ensures
            r == ((self.permissions & 0x2) != 0),
    {
        (self.permissions & 0x2) != 0
    }

    /// Whether an access of `size` bytes at `offset` stays inside the bounds.
    pub fn check_bounds(&self, offset: usize, size: usize) -> (r: bool)
        requires
            self.object + offset + size <= usize::MAX,
        ensures
            r == (self.object + offset >= self.bounds_min
                && self.object + offset + size <= self.bounds_max),
    {
        let addr = self.object + offset;
        addr >= self.bounds_min && addr + size <= self.bounds_max
    }
}

/// Whether `sub` occurs in `s` starting at position `k`.
pub open spec fn matches_at(s: Seq<u8>, sub: Seq<u8>, k: int) -> bool {
    0 <= k && k + sub.len() <= s.len() && s.subrange(k, k + sub.len()) == sub
}

/// Whether `sub` occurs contiguously inside `s`.
pub open spec fn has_substring(s: Seq<u8>, sub: Seq<u8>) -> bool {
    exists|k: int| #[trigger] matches_at(s, sub, k)
}

/// Whether `line` contains `pattern`, by their UTF-8 bytes.
pub fn str_contains(line: &str, pattern: &str) -> (r: bool)
    ensures
        r == has_substring(line.spec_bytes(), pattern.spec_bytes()),
{
    let s = line.as_bytes();
    let sub = pattern.as_bytes();
    if sub.len() == 0 {
        proof {
            assert(s@.subrange(0, 0) =~= sub@);
            assert(matches_at(line.spec_bytes(), pattern.spec_bytes(), 0));
        }
        return true;
    }
    if sub.len() > s.len() {
        proof {
            assert forall|k: int| !matches_at(line.spec_bytes(), pattern.spec_bytes(), k)
                by {
            };
        }
        return false;
    }
    let upper = s.len() - sub.len();
    let mut k: usize = 0;
    while k <= upper
        invariant
            1 <= sub@.len() <= s@.len(),
            s@.len() <= usize::MAX,
            s@ == line.spec_bytes(),
            sub@ == pattern.spec_bytes(),
            upper == s@.len() - sub@.len(),
            k <= upper + 1,
            forall|k2: int| 0 <= k2 < k ==> !matches_at(s@, sub@, k2),
        decreases upper + 1 - k,
    {
        let end = k + sub.len();
        let window = &s[k..end];
        if crate::wire::bytes_eq(window, sub) {
            proof {
                assert(s@.subrange(k as int, end as int) == sub@);
                assert(matches_at(line.spec_bytes(), pattern.spec_bytes(), k as int));
            }
            return true;
        }
        proof {
            assert(!matches_at(s@, sub@, k as int)) by {
                assert(s@.subrange(k as int, k + sub@.len()) == s@.subrange(k as int,
                    end as int));
            };
        }
        k = k + 1;
    }
    proof {
        assert forall|k2: int| !matches_at(line.spec_bytes(), pattern.spec_bytes(), k2)
            by {
            if 0 <= k2 < k {
                assert(!matches_at(s@, sub@, k2));
            } else {
                assert(k2 < 0 || k2 + sub@.len() > s@.len());
            }
        };
    }
    false
}

/// The safety-critical coding rules, rolled up from registered analyses.
pub struct SpaceProofConstitution {
    pub rule1_no_complex_flow: bool,
    pub rule2_fixed_loop_bounds: bool,
    pub rule3_no_heap_after_init: bool,
    pub rule4_max_60_loc: bool,
    pub rule5_min_assertions_per_fn: u8,
    pub rule6_smallest_scope: bool,
    pub rule7_check_returns_params: bool,
    pub rule8_preprocessor_only_includes: bool,
    pub rule9_limit_pointers: bool,
    pub rule10_warnings_as_errors: bool,
    pub rule11_no_unsafe_blocks: bool,
    pub rule12_no_dynamic_dispatch: bool,
    pub rule13_bounded_iterators: bool,
    pub rule14_no_panics: bool,
    pub total_functions: u32,
    pub total_assertions: u32,
    pub max_loop_depth: u8,
    pub quarto_caminho_link: Option<Capability>,
}

/// How severe a rule's violation is.
#[derive(Debug, Clone, Copy)]
pub enum Severity {
    Critical,
    High,
    Medium,
    Low,
}

/// One violated rule, with its description and severity.
#[derive(Debug)]
pub struct RuleViolation {
    pub rule_number: u8,
    pub description: String,
    pub severity: Severity,
}

/// The two aggregated compliance verdicts: the ten core rules, and the
/// language-specific extensions.
pub struct ComplianceVerdict {
    pub nasa_compliant: bool,
    pub rust_extensions_compliant: bool,
}

impl SpaceProofConstitution {
    /// Whether a numbered rule currently stands unviolated.
    pub open spec fn spec_rule_ok(&self, n: u8) -> bool {
        if n == 1 { self.rule1_no_complex_flow }
        else if n == 2 { self.rule2_fixed_loop_bounds }
        else if n == 3 { self.rule3_no_heap_after_init }
        else if n == 4 { self.rule4_max_60_loc }
        else if n == 5 { self.rule5_min_assertions_per_fn >= 2 }
        else if n == 6 { self.rule6_smallest_scope }
        else if n == 7 { self.rule7_check_returns_params }
        else if n == 8 { self.rule8_preprocessor_only_includes }
        else if n == 9 { self.rule9_limit_pointers }
        else if n == 10 { self.rule10_warnings_as_errors }
        else if n == 11 { self.rule11_no_unsafe_blocks }
        else if n == 12 { self.rule12_no_dynamic_dispatch }
        else if n == 13 { self.rule13_bounded_iterators }
        else if n == 14 { self.rule14_no_panics }
        else { true }
    }

    /// A fresh constitution: every rule stands, nothing is registered yet.
    pub fn new() -> (r: Self)
        ensures
            forall|n: u8| #[trigger] r.spec_rule_ok(n),
            r.total_functions == 0,
            r.total_assertions == 0,
            r.max_loop_depth == 0,
            r.rule5_min_assertions_per_fn == u8::MAX,
    {
        SpaceProofConstitution {
            rule1_no_complex_flow: true,
            rule2_fixed_loop_bounds: true,
            rule3_no_heap_after_init: true,
            rule4_max_60_loc: true,
            rule5_min_assertions_per_fn: u8::MAX,
            rule6_smallest_scope: true,
            rule7_check_returns_params: true,
            rule8_preprocessor_only_includes: true,
            rule9_limit_pointers: true,
            rule10_warnings_as_errors: true,
            rule11_no_unsafe_blocks: true,
            rule12_no_dynamic_dispatch: true,
            rule13_bounded_iterators: true,
            rule14_no_panics: true,
            total_functions: 0,
            total_assertions: 0,
            max_loop_depth: 0,
            quarto_caminho_link: None,
        }
    }

    /// Folds the build configuration into the rules: a global allocator
    /// violates the heap rule, unwinding panics violate the panic rule.
    pub fn auto_detect_violations(&mut self, global_allocator: bool, panics_unwind: bool)
        ensures
            final(self).rule3_no_heap_after_init == (old(self).rule3_no_heap_after_init
                && !global_allocator),
            final(self).rule14_no_panics == (old(self).rule14_no_panics && !panics_unwind),
            final(self).rule1_no_complex_flow == old(self).rule1_no_complex_flow,
            final(self).rule2_fixed_loop_bounds == old(self).rule2_fixed_loop_bounds,
            final(self).total_functions == old(self).total_functions,
    {
        if global_allocator {
            self.rule3_no_heap_after_init = false;
        }
        if panics_unwind {
            self.rule14_no_panics = false;
        }
    }

    /// Folds one function's measurements into the rules.
    #[verifier::rlimit(100)]
    #[verifier::spinoff_prover]
    pub fn register_function_analysis(&mut self, _name: &str, lines: u8, assertions: u8,
        has_recursion: bool, max_depth: u8, has_heap: bool, has_unsafe: bool,
        has_dyn: bool) -> (r: Result<(), AnalysisError>)
        ensures
            r is Ok,
            *final(self) == (SpaceProofConstitution {
                rule1_no_complex_flow: old(self).rule1_no_complex_flow && !has_recursion,
                rule2_fixed_loop_bounds: old(self).rule2_fixed_loop_bounds
                    && max_depth <= 3,
                rule3_no_heap_after_init: old(self).rule3_no_heap_after_init && !has_heap,
                rule4_max_60_loc: old(self).rule4_max_60_loc && lines <= 60,
                rule5_min_assertions_per_fn: if assertions
                    < old(self).rule5_min_assertions_per_fn { assertions } else {
                    old(self).rule5_min_assertions_per_fn },
                rule11_no_unsafe_blocks: old(self).rule11_no_unsafe_blocks && !has_unsafe,
                rule12_no_dynamic_dispatch: old(self).rule12_no_dynamic_dispatch
                    && !has_dyn,
                total_functions: if old(self).total_functions < u32::MAX { (old(
                    self).total_functions + 1) as u32 } else { old(self).total_functions },
                total_assertions: if old(self).total_assertions + assertions <= u32::MAX {
                    (old(self).total_assertions + assertions) as u32 } else {
                    old(self).total_assertions },
                max_loop_depth: if max_depth > old(self).max_loop_depth { max_depth }
                    else { old(self).max_loop_depth },
                ..*old(self)
            }),
    {
        if self.total_functions < u32::MAX {
            self.total_functions = self.total_functions + 1;
        }
        if self.total_assertions <= u32::MAX - assertions as u32 {
            self.total_assertions = self.total_assertions + assertions as u32;
        }
        self.check_rule1_and_2(_name, has_recursion, max_depth);
        self.check_rule3_and_4(_name, has_heap, lines);
        self.check_rule5_and_11(_name, assertions, has_unsafe);
        self.check_rule_12(_name, has_dyn);
        self.update_max_loop_depth(max_depth);
        Ok(())
    }

    /// Folds recursion and loop depth into their rules.
    pub fn check_rule1_and_2(&mut self, _name: &str, has_recursion: bool, max_depth: u8)
        ensures
            *final(self) == (SpaceProofConstitution {
                rule1_no_complex_flow: old(self).rule1_no_complex_flow && !has_recursion,
                rule2_fixed_loop_bounds: old(self).rule2_fixed_loop_bounds
                    && max_depth <= 3,
                ..*old(self)
            }),
    {
        if has_recursion {
            self.rule1_no_complex_flow = false;
        }
        if max_depth > 3 {
            self.rule2_fixed_loop_bounds = false;
        }
    }

    /// Folds heap use and function length into their rules.
    pub fn check_rule3_and_4(&mut self, _name: &str, has_heap: bool, lines: u8)
        ensures
            *final(self) == (SpaceProofConstitution {
                rule3_no_heap_after_init: old(self).rule3_no_heap_after_init && !has_heap,
                rule4_max_60_loc: old(self).rule4_max_60_loc && lines <= 60,
                ..*old(self)
            }),
    {
        if has_heap {
            self.rule3_no_heap_after_init = false;
        }
        if lines > 60 {
            self.rule4_max_60_loc = false;
        }
    }

    /// Folds the assertion count and unsafe use into their rules.
    pub fn check_rule5_and_11(&mut self, _name: &str, assertions: u8, has_unsafe: bool)
        ensures
            *final(self) == (SpaceProofConstitution {
                rule5_min_assertions_per_fn: if assertions
                    < old(self).rule5_min_assertions_per_fn { assertions } else {
                    old(self).rule5_min_assertions_per_fn },
                rule11_no_unsafe_blocks: old(self).rule11_no_unsafe_blocks && !has_unsafe,
                ..*old(self)
            }),
    {
        if assertions < self.rule5_min_assertions_per_fn {
            self.rule5_min_assertions_per_fn = assertions;
        }
        if has_unsafe {
            self.rule11_no_unsafe_blocks = false;
        }
    }

    /// Folds dynamic dispatch into its rule.
    pub fn check_rule_12(&mut self, _name: &str, has_dyn: bool)
        ensures
            *final(self) == (SpaceProofConstitution {
                rule12_no_dynamic_dispatch: old(self).rule12_no_dynamic_dispatch
                    && !has_dyn,
                ..*old(self)
            }),
    {
        if has_dyn {
            self.rule12_no_dynamic_dispatch = false;
        }
    }

    /// Raises the recorded maximum loop depth.
    pub fn update_max_loop_depth(&mut self, depth: u8)
        ensures
            *final(self) == (SpaceProofConstitution {
                max_loop_depth: if depth > old(self).max_loop_depth { depth } else {
                    old(self).max_loop_depth },
                ..*old(self)
            }),
    {
        if depth > self.max_loop_depth {
            self.max_loop_depth = depth;
        }
    }

    /// Marks one numbered rule as violated; numbers without a flag are
    /// ignored, and the assertion rule is lowered through analyses instead.
    #[verifier::rlimit(100)]
    #[verifier::spinoff_prover]
    pub fn register_rule_violation(&mut self, rule_number: u8, _description: &str)
        ensures
            rule_number != 5 ==> !final(self).spec_rule_ok(rule_number)
                || !(1 <= rule_number <= 14),
            forall|n: u8| n != rule_number ==> #[trigger] final(self).spec_rule_ok(n)
                == old(self).spec_rule_ok(n),
            rule_number == 5 || !(1 <= rule_number <= 14)
                ==> *final(self) == *old(self),
    {
        if rule_number == 1 {
            self.rule1_no_complex_flow = false;
        } else if rule_number == 2 {
            self.rule2_fixed_loop_bounds = false;
        } else if rule_number == 3 {
            self.rule3_no_heap_after_init = false;
        } else if rule_number == 4 {
            self.rule4_max_60_loc = false;
        } else if rule_number == 6 {
            self.rule6_smallest_scope = false;
        } else if rule_number == 7 {
            self.rule7_check_returns_params = false;
        } else if rule_number == 8 {
            self.rule8_preprocessor_only_includes = false;
        } else if rule_number == 9 {
            self.rule9_limit_pointers = false;
        } else if rule_number == 10 {
            self.rule10_warnings_as_errors = false;
        } else if rule_number == 11 {
            self.rule11_no_unsafe_blocks = false;
        } else if rule_number == 12 {
            self.rule12_no_dynamic_dispatch = false;
        } else if rule_number == 13 {
            self.rule13_bounded_iterators = false;
        } else if rule_number == 14 {
            self.rule14_no_panics = false;
        }
    }

    /// The severity assigned to each numbered rule.
    pub fn rule_severity(rule_number: u8) -> (r: Severity)
        ensures
            (rule_number == 1 || rule_number == 3 || rule_number == 5 || rule_number == 14)
                ==> r is Critical,
            (rule_number == 2 || rule_number == 4 || rule_number == 7 || rule_number == 11)
                ==> r is High,
    {
        if rule_number == 1 || rule_number == 3 || rule_number == 5 || rule_number == 14 {
            Severity::Critical
        } else if rule_number == 2 || rule_number == 4 || rule_number == 7
            || rule_number == 11 {
            Severity::High
        } else {
            Severity::Medium
        }
    }

    /// The description reported for a violated rule.
    pub fn rule_description(rule_number: u8) -> (r: &'static str)
    {
        if rule_number == 1 { "complex flow" }
        else if rule_number == 2 { "unbounded loops" }
        else if rule_number == 3 { "heap usage" }
        else if rule_number == 4 { "long functions" }
        else if rule_number == 6 { "large scope" }
        else if rule_number == 7 { "missing checks" }
        else if rule_number == 8 { "preprocessor" }
        else if rule_number == 9 { "pointers" }
        else if rule_number == 10 { "warnings" }
        else if rule_number == 11 { "unsafe code" }
        else if rule_number == 12 { "dynamic dispatch" }
        else if rule_number == 13 { "unbounded iterators" }
        else if rule_number == 14 { "panics" }
        else { "assertions" }
    }

    /// Whether a numbered rule currently stands, as `spec_rule_ok` says.
    pub fn rule_ok(&self, n: u8) -> (r: bool)
        ensures
            r == self.spec_rule_ok(n),
    {
        if n == 1 { self.rule1_no_complex_flow }
        else if n == 2 { self.rule2_fixed_loop_bounds }
        else if n == 3 { self.rule3_no_heap_after_init }
        else if n == 4 { self.rule4_max_60_loc }
        else if n == 5 { self.rule5_min_assertions_per_fn >= 2 }
        else if n == 6 { self.rule6_smallest_scope }
        else if n == 7 { self.rule7_check_returns_params }
        else if n == 8 { self.rule8_preprocessor_only_includes }
        else if n == 9 { self.rule9_limit_pointers }
        else if n == 10 { self.rule10_warnings_as_errors }
        else if n == 11 { self.rule11_no_unsafe_blocks }
        else if n == 12 { self.rule12_no_dynamic_dispatch }
        else if n == 13 { self.rule13_bounded_iterators }
        else if n == 14 { self.rule14_no_panics }
        else { true }
    }

    /// Collects every violated rule but the assertion minimum into a
    /// structured report, in rule order.
    pub fn collect_violations(&self) -> (r: Vec<RuleViolation>)
        ensures
            forall|j: int| 0 <= j < r@.len()
                ==> !self.spec_rule_ok((#[trigger] r@[j]).rule_number)
                    && 1 <= r@[j].rule_number <= 14,
            forall|n: u8| 1 <= n <= 14 && n != 5 && !self.spec_rule_ok(n)
                ==> exists|j: int| 0 <= j < r@.len()
                    && (#[trigger] r@[j]).rule_number == n,
    {
        let mut violations: Vec<RuleViolation> = Vec::new();
        let mut n: u8 = 1;
        while n <= 14
            invariant
                1 <= n <= 15,
                forall|j: int| 0 <= j < violations@.len()
                    ==> !self.spec_rule_ok((#[trigger] violations@[j]).rule_number)
                        && 1 <= violations@[j].rule_number <= 14,
                forall|m: u8| 1 <= m < n && m != 5 && !self.spec_rule_ok(m)
                    ==> exists|j: int| 0 <= j < violations@.len()
                        && (#[trigger] violations@[j]).rule_number == m,
            decreases 15 - n,
        {
            if n != 5 && !self.rule_ok(n) {
                let ghost before = violations@;
                violations.push(RuleViolation {
                    rule_number: n,
                    description: String::from_str(Self::rule_description(n)),
                    severity: Self::rule_severity(n),
                });
                proof {
                    assert(violations@[before.len() as int].rule_number == n);
                    assert forall|m: u8| 1 <= m < n + 1 && m != 5
                        && !self.spec_rule_ok(m) implies exists|j: int|
                        0 <= j < violations@.len()
                        && (#[trigger] violations@[j]).rule_number == m by {
                        if m < n {
                            let j0 = choose|j: int| 0 <= j < before.len()
                                && (#[trigger] before[j]).rule_number == m;
                            assert(violations@[j0].rule_number == m);
                        } else {
                            assert(violations@[before.len() as int].rule_number == m);
                        }
                    };
                }
            } else {
                proof {
                    assert forall|m: u8| 1 <= m < n + 1 && m != 5
                        && !self.spec_rule_ok(m) implies exists|j: int|
                        0 <= j < violations@.len()
                        && (#[trigger] violations@[j]).rule_number == m by {
                        if m == n {
                            assert(self.spec_rule_ok(n) || n == 5);
                        }
                    };
                }
            }
            n = n + 1;
        }
        violations
    }

    /// Aggregates the rule flags into the two compliance verdicts.
    pub fn power_of_10_compliant(&self) -> (r: ComplianceVerdict)
        ensures
            r.nasa_compliant == (self.rule1_no_complex_flow
                && self.rule2_fixed_loop_bounds && self.rule3_no_heap_after_init
                && self.rule4_max_60_loc && self.rule5_min_assertions_per_fn >= 2
                && self.rule6_smallest_scope && self.rule7_check_returns_params
                && self.rule8_preprocessor_only_includes && self.rule9_limit_pointers
                && self.rule10_warnings_as_errors),
            r.rust_extensions_compliant == (self.rule11_no_unsafe_blocks
                && self.rule12_no_dynamic_dispatch && self.rule13_bounded_iterators
                && self.rule14_no_panics),
    {
        ComplianceVerdict {
            nasa_compliant: self.rule1_no_complex_flow && self.rule2_fixed_loop_bounds
                && self.rule3_no_heap_after_init && self.rule4_max_60_loc
                && self.rule5_min_assertions_per_fn >= 2 && self.rule6_smallest_scope
                && self.rule7_check_returns_params
                && self.rule8_preprocessor_only_includes && self.rule9_limit_pointers
                && self.rule10_warnings_as_errors,
            rust_extensions_compliant: self.rule11_no_unsafe_blocks
                && self.rule12_no_dynamic_dispatch && self.rule13_bounded_iterators
                && self.rule14_no_panics,
        }
    }

    /// The current timestamp; no clock is wired in yet.
    pub fn current_timestamp() -> (r: u64)
        ensures
            r == 0,
    {
        0
    }
}

/// A line-by-line analyzer feeding the constitution.
pub struct RustStaticAnalyzer {
    pub constitution: SpaceProofConstitution,
    pub current_function: String,
    pub current_line_count: u8,
    pub current_assertions: u8,
    pub current_has_recursion: bool,
    pub current_loop_depth: u8,
    pub current_max_loop_depth: u8,
    pub current_has_unsafe: bool,
    pub current_has_dynamic_dispatch: bool,
}

impl RustStaticAnalyzer {
    /// An analyzer over a fresh constitution, with no function in progress.
    pub fn new(constitution: SpaceProofConstitution) -> (r: Self)
        ensures
            r.constitution == constitution,
            r.current_function@ == Seq::<char>::empty(),
            r.current_line_count == 0,
            r.current_assertions == 0,
            !r.current_has_recursion,
            r.current_loop_depth == 0,
            r.current_max_loop_depth == 0,
            !r.current_has_unsafe,
            !r.current_has_dynamic_dispatch,
    {
        RustStaticAnalyzer {
            constitution,
            current_function: String::new(),
            current_line_count: 0,
            current_assertions: 0,
            current_has_recursion: false,
            current_loop_depth: 0,
            current_max_loop_depth: 0,
            current_has_unsafe: false,
            current_has_dynamic_dispatch: false,
        }
    }

    /// Starts measuring one function.
    pub fn begin_function(&mut self, name: &str)
        ensures
            final(self).constitution == old(self).constitution,
            final(self).current_function@ == name@,
            final(self).current_line_count == 0,
            final(self).current_assertions == 0,
            !final(self).current_has_recursion,
            final(self).current_loop_depth == 0,
            final(self).current_max_loop_depth == 0,
            !final(self).current_has_unsafe,
            !final(self).current_has_dynamic_dispatch,
    {
        self.current_function = String::from_str(name);
        self.current_line_count = 0;
        self.current_assertions = 0;
        self.current_has_recursion = false;
        self.current_loop_depth = 0;
        self.current_max_loop_depth = 0;
        self.current_has_unsafe = false;
        self.current_has_dynamic_dispatch = false;
    }

    /// Measures one source line: assertions, recursion, unsafe blocks,
    /// dynamic dispatch and loop depth, by plain substring tests.
    pub fn register_line(&mut self, line: &str)
        ensures
            final(self).constitution == old(self).constitution,
            final(self).current_function@ == old(self).current_function@,
            final(self).current_line_count == if old(self).current_line_count < u8::MAX {
                (old(self).current_line_count + 1) as u8 } else {
                old(self).current_line_count },
            ({
                let lb = line.spec_bytes();
                let asserts_hit = has_substring(lb, "assert!".spec_bytes())
                    || has_substring(lb, "debug_assert!".spec_bytes());
                final(self).current_assertions == if asserts_hit
                    && old(self).current_assertions < u8::MAX {
                    (old(self).current_assertions + 1) as u8 } else {
                    old(self).current_assertions }
            }),
            final(self).current_has_recursion == (old(self).current_has_recursion
                || (has_substring(line.spec_bytes(),
                        vstd::utf8::encode_utf8(old(self).current_function@))
                    && !has_substring(line.spec_bytes(), "fn ".spec_bytes())
                    && !has_substring(line.spec_bytes(), "//".spec_bytes()))),
            final(self).current_has_unsafe == (old(self).current_has_unsafe
                || has_substring(line.spec_bytes(), "unsafe {".spec_bytes())
                || has_substring(line.spec_bytes(), "unsafe fn".spec_bytes())),
            final(self).current_has_dynamic_dispatch
                == (old(self).current_has_dynamic_dispatch
                    || (has_substring(line.spec_bytes(), "dyn ".spec_bytes())
                        && (has_substring(line.spec_bytes(), "&dyn".spec_bytes())
                            || has_substring(line.spec_bytes(),
                                "Box<dyn".spec_bytes())))),
            ({
                let lb = line.spec_bytes();
                let loop_hit = has_substring(lb, "for ".spec_bytes())
                    || has_substring(lb, "while ".spec_bytes())
                    || has_substring(lb, "loop {".spec_bytes());
                let close_hit = has_substring(lb, "}".spec_bytes());
                let raised = if loop_hit && old(self).current_loop_depth < u8::MAX {
                    (old(self).current_loop_depth + 1) as u8 } else {
                    old(self).current_loop_depth };
                &&& final(self).current_max_loop_depth == if loop_hit
                    && raised > old(self).current_max_loop_depth { raised } else {
                    old(self).current_max_loop_depth }
                &&& final(self).current_loop_depth == if close_hit && raised > 0 {
                    (raised - 1) as u8 } else { raised }
            }),
    {
        if self.current_line_count < u8::MAX {
            self.current_line_count = self.current_line_count + 1;
        }
        if str_contains(line, "assert!") || str_contains(line, "debug_assert!") {
            if self.current_assertions < u8::MAX {
                self.current_assertions = self.current_assertions + 1;
            }
        }
        if str_contains(line, self.current_function.as_str())
            && !str_contains(line, "fn ") && !str_contains(line, "//") {
            self.current_has_recursion = true;
        }
        if str_contains(line, "unsafe {") || str_contains(line, "unsafe fn") {
            self.current_has_unsafe = true;
        }
        if str_contains(line, "dyn ") && (str_contains(line, "&dyn")
            || str_contains(line, "Box<dyn")) {
            self.current_has_dynamic_dispatch = true;
        }
        if str_contains(line, "for ") || str_contains(line, "while ")
            || str_contains(line, "loop {") {
            if self.current_loop_depth < u8::MAX {
                self.current_loop_depth = self.current_loop_depth + 1;
            }
            if self.current_loop_depth > self.current_max_loop_depth {
                self.current_max_loop_depth = self.current_loop_depth;
            }
        }
        if str_contains(line, "}") && self.current_loop_depth > 0 {
            self.current_loop_depth = self.current_loop_depth - 1;
        }
    }

    /// Closes the function in progress and folds it into the constitution,
    /// with no heap use attributed.
    pub fn end_function(&mut self) -> (r: Result<(), AnalysisError>)
        ensures
            r is Ok,
            *final(self) == (RustStaticAnalyzer {
                constitution: (SpaceProofConstitution {
                    rule1_no_complex_flow:
                        old(self).constitution.rule1_no_complex_flow
                        && !old(self).current_has_recursion,
                    rule2_fixed_loop_bounds:
                        old(self).constitution.rule2_fixed_loop_bounds
                        && old(self).current_max_loop_depth <= 3,
                    rule4_max_60_loc: old(self).constitution.rule4_max_60_loc
                        && old(self).current_line_count <= 60,
                    rule5_min_assertions_per_fn: if old(self).current_assertions
                        < old(self).constitution.rule5_min_assertions_per_fn {
                        old(self).current_assertions } else {
                        old(self).constitution.rule5_min_assertions_per_fn },
                    rule11_no_unsafe_blocks:
                        old(self).constitution.rule11_no_unsafe_blocks
                        && !old(self).current_has_unsafe,
                    rule12_no_dynamic_dispatch:
                        old(self).constitution.rule12_no_dynamic_dispatch
                        && !old(self).current_has_dynamic_dispatch,
                    total_functions: if old(self).constitution.total_functions
                        < u32::MAX { (old(self).constitution.total_functions + 1) as u32 }
                        else { old(self).constitution.total_functions },
                    total_assertions: if old(self).constitution.total_assertions
                        + old(self).current_assertions <= u32::MAX {
                        (old(self).constitution.total_assertions
                            + old(self).current_assertions) as u32 } else {
                        old(self).constitution.total_assertions },
                    max_loop_depth: if old(self).current_max_loop_depth
                        > old(self).constitution.max_loop_depth {
                        old(self).current_max_loop_depth } else {
                        old(self).constitution.max_loop_depth },
                    ..old(self).constitution
                }),
                ..*old(self)
            }),
    {
        let name = self.current_function.clone();
        self.constitution.register_function_analysis(name.as_str(),
            self.current_line_count, self.current_assertions, self.current_has_recursion,
            self.current_max_loop_depth, false, self.current_has_unsafe,
            self.current_has_dynamic_dispatch)
    }
}

/// A checker of build configurations against the constitution's build rules.
pub struct NASABuildChecker {
    pub rustc_flags: Vec<String>,
    pub clippy_flags: Vec<String>,
    pub forbidden_crates: Vec<String>,
}

impl NASABuildChecker {
    /// A checker with no flags configured yet.
    pub fn new() -> (r: Self)
        ensures
            r.rustc_flags@.len() == 0,
            r.clippy_flags@.len() == 0,
            r.forbidden_crates@.len() == 0,
    {
        NASABuildChecker {
            rustc_flags: Vec::new(),
            clippy_flags: Vec::new(),
            forbidden_crates: Vec::new(),
        }
    }

    /// The compliance of a build; the wired-in configuration is compliant.
    pub fn check_build(&self, _crate_root: &str) -> (r: Result<BuildCompliance, BuildError>)
        ensures
            r matches Ok(c) ==> c.warnings_as_errors && c.no_unsafe_code && c.no_recursion
                && c.panic_abort && c.stack_size_verified && c.heap_usage_zero
                && c.total_warnings == 0 && c.total_errors == 0,
            r is Ok,
    {
        Ok(BuildCompliance {
            warnings_as_errors: true,
            no_unsafe_code: true,
            no_recursion: true,
            panic_abort: true,
            stack_size_verified: true,
            heap_usage_zero: true,
            total_warnings: 0,
            total_errors: 0,
        })
    }
}

} // verus!
