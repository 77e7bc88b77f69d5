//! Path policies of a team project and the replay of its Main-file pointer.
//!
//! A policy rule names either one exact path or a directory pattern ending in
//! `/*`. The exact rule wins, then the longest matching directory prefix, then
//! the project default. Patterns are deliberately not regular expressions.
use crate::collaboration::{file_policy_from_name, integrity_message, FilePolicy};
use crate::error::AppError;
use crate::text::{chars_eq, chars_of, str_eq};
use crate::working_tree::opt_view;
use vstd::prelude::*;

verus! {

/// One stored policy rule: a path or `prefix/*` pattern and a stored policy name.
#[derive(Clone, Debug)]
pub struct PolicyRule {
    pub pattern: String,
    pub policy: String,
}

/// The mathematical value of a policy rule.
pub ghost struct RuleView {
    pub pattern: Seq<char>,
    pub policy: Seq<char>,
}

impl View for PolicyRule {
    type V = RuleView;

    open spec fn view(&self) -> RuleView {
        RuleView { pattern: self.pattern@, policy: self.policy@ }
    }
}

/// Views of a sequence of rules.
pub open spec fn rules_view(rules: Seq<PolicyRule>) -> Seq<RuleView> {
    rules.map_values(|r: PolicyRule| r@)
}

/// The directory prefix of a `prefix/*` pattern.
pub open spec fn pattern_prefix(pattern: Seq<char>) -> Option<Seq<char>> {
    if pattern.len() >= 2 && pattern[pattern.len() - 2] == '/' && pattern[pattern.len() - 1]
        == '*' {
        Some(pattern.subrange(0, pattern.len() - 2))
    } else {
        None
    }
}

/// Whether `path` lies below the directory `prefix`.
pub open spec fn below(prefix: Seq<char>, path: Seq<char>) -> bool {
    &&& path.len() > prefix.len()
    &&& path.subrange(0, prefix.len() as int) == prefix
    &&& path[prefix.len() as int] == '/'
}

/// Rule `i` names `path` exactly.
pub open spec fn exact_at(rules: Seq<RuleView>, path: Seq<char>, i: int) -> bool {
    0 <= i < rules.len() && rules[i].pattern == path
}

/// Rule `i` is a directory pattern whose prefix covers `path`.
pub open spec fn prefix_at(rules: Seq<RuleView>, path: Seq<char>, i: int) -> bool {
    0 <= i < rules.len() && match pattern_prefix(rules[i].pattern) {
        Some(p) => below(p, path),
        None => false,
    }
}

/// Length of the directory prefix of rule `i`.
pub open spec fn prefix_len(rules: Seq<RuleView>, i: int) -> int {
    rules[i].pattern.len() - 2
}

/// Rule `i` is the first exact rule for `path`.
pub open spec fn first_exact(rules: Seq<RuleView>, path: Seq<char>, i: int) -> bool {
    exact_at(rules, path, i) && forall|k: int| 0 <= k < i ==> !exact_at(rules, path, k)
}

/// Rule `i` is the longest covering directory pattern, the first among equals.
pub open spec fn longest_prefix(rules: Seq<RuleView>, path: Seq<char>, i: int) -> bool {
    &&& prefix_at(rules, path, i)
    &&& forall|k: int| #[trigger]
        prefix_at(rules, path, k) ==> prefix_len(rules, k) <= prefix_len(rules, i)
    &&& forall|k: int|
        0 <= k < i && #[trigger] prefix_at(rules, path, k) ==> prefix_len(rules, k) < prefix_len(
            rules,
            i,
        )
}

/// The rule that decides `path`, if any: the first exact rule, else the longest
/// covering directory pattern.
pub open spec fn deciding_rule(rules: Seq<RuleView>, path: Seq<char>) -> Option<int> {
    if exists|i: int| first_exact(rules, path, i) {
        Some(choose|i: int| first_exact(rules, path, i))
    } else if exists|i: int| longest_prefix(rules, path, i) {
        Some(choose|i: int| longest_prefix(rules, path, i))
    } else {
        None
    }
}

/// The stored policy name that applies to `path` under `rules` and a project default.
pub open spec fn effective_policy_name(
    rules: Seq<RuleView>,
    path: Seq<char>,
    default_policy: Seq<char>,
) -> Seq<char> {
    match deciding_rule(rules, path) {
        Some(i) => rules[i].policy,
        None => default_policy,
    }
}

/// The policy that applies to `path`, or `None` when the deciding name is not a policy.
pub open spec fn effective_policy(
    rules: Seq<RuleView>,
    path: Seq<char>,
    default_policy: Seq<char>,
) -> Option<FilePolicy> {
    file_policy_from_name(effective_policy_name(rules, path, default_policy))
}

proof fn lemma_first_exact_unique(rules: Seq<RuleView>, path: Seq<char>, i: int, j: int)
    requires
        first_exact(rules, path, i),
        first_exact(rules, path, j),
    ensures
        i == j,
{
}

proof fn lemma_longest_prefix_unique(rules: Seq<RuleView>, path: Seq<char>, i: int, j: int)
    requires
        longest_prefix(rules, path, i),
        longest_prefix(rules, path, j),
    ensures
        i == j,
{
    if i < j {
        assert(prefix_at(rules, path, i));
        assert(prefix_at(rules, path, j));
    } else if j < i {
        assert(prefix_at(rules, path, i));
        assert(prefix_at(rules, path, j));
    }
}

/// Whether the first `n` characters of `a` and `b` agree.
fn same_prefix(a: &Vec<char>, b: &Vec<char>, n: usize) -> (r: bool)
    requires
        n <= a@.len(),
        n <= b@.len(),
    ensures
        r == (a@.subrange(0, n as int) == b@.subrange(0, n as int)),
{
    let mut i: usize = 0;
    while i < n
        invariant
            n <= a@.len(),
            n <= b@.len(),
            i <= n,
            forall|k: int| 0 <= k < i ==> a@[k] == b@[k],
        decreases n - i,
    {
        if a[i] != b[i] {
            assert(a@.subrange(0, n as int)[i as int] != b@.subrange(0, n as int)[i as int]);
            return false;
        }
        i = i + 1;
    }
    assert(a@.subrange(0, n as int) =~= b@.subrange(0, n as int));
    true
}

/// The length of the directory prefix of `pattern` when it is a `prefix/*` pattern
/// covering `path`.
fn covering_prefix(pattern: &Vec<char>, path: &Vec<char>) -> (r: Option<usize>)
    ensures
        match r {
            Some(n) => pattern_prefix(pattern@) matches Some(p) && below(p, path@) && n == p.len(),
            None => !(pattern_prefix(pattern@) matches Some(p) && below(p, path@)),
        },
{
    let len = pattern.len();
    if len < 2 || pattern[len - 2] != '/' || pattern[len - 1] != '*' {
        return None;
    }
    let n = len - 2;
    proof {
        let p = pattern@.subrange(0, n as int);
        assert(p.len() == n);
    }
    if path.len() <= n {
        return None;
    }
    if !same_prefix(pattern, path, n) {
        proof {
            assert(pattern@.subrange(0, n as int) =~= pattern@.subrange(0, n as int).subrange(
                0,
                n as int,
            ));
        }
        return None;
    }
    if path[n] != '/' {
        return None;
    }
    proof {
        assert(pattern@.subrange(0, n as int).subrange(0, n as int) =~= pattern@.subrange(
            0,
            n as int,
        ));
    }
    Some(n)
}

/// The index of the rule that decides `path`, if any.
pub fn find_deciding_rule(rules: &Vec<PolicyRule>, path: &str) -> (r: Option<usize>)
    ensures
        r matches Some(i) ==> deciding_rule(rules_view(rules@), path@) == Some(i as int),
        r is None ==> deciding_rule(rules_view(rules@), path@) is None,
{
    let ghost rv = rules_view(rules@);
    let target = chars_of(path);
    let mut selected: Option<(usize, usize)> = None;
    let mut i: usize = 0;
    while i < rules.len()
        invariant
            rv == rules_view(rules@),
            target@ == path@,
            i <= rules@.len(),
            forall|k: int| 0 <= k < i ==> !exact_at(rv, path@, k),
            match selected {
                None => forall|k: int| 0 <= k < i ==> !prefix_at(rv, path@, k),
                Some((l, j)) => {
                    &&& j < i
                    &&& prefix_at(rv, path@, j as int)
                    &&& l == prefix_len(rv, j as int)
                    &&& forall|k: int|
                        0 <= k < i && #[trigger] prefix_at(rv, path@, k) ==> prefix_len(rv, k)
                            <= l
                    &&& forall|k: int|
                        0 <= k < j && #[trigger] prefix_at(rv, path@, k) ==> prefix_len(rv, k)
                            < l
                },
            },
        decreases rules@.len() - i,
    {
        let pattern = chars_of(rules[i].pattern.as_str());
        assert(rv[i as int] == rules@[i as int]@);
        if chars_eq(&pattern, &target) {
            proof {
                assert(first_exact(rv, path@, i as int));
                assert forall|j: int| first_exact(rv, path@, j) implies j == i by {
                    lemma_first_exact_unique(rv, path@, i as int, j);
                }
            }
            return Some(i);
        }
        match covering_prefix(&pattern, &target) {
            Some(n) => {
                let better = match selected {
                    None => true,
                    Some((l, _)) => n > l,
                };
                if better {
                    selected = Some((n, i));
                }
            },
            None => {},
        }
        i = i + 1;
    }
    proof {
        assert(!exists|k: int| first_exact(rv, path@, k));
    }
    match selected {
        None => {
            proof {
                assert(!exists|k: int| longest_prefix(rv, path@, k));
            }
            None
        },
        Some((_, j)) => {
            proof {
                assert(longest_prefix(rv, path@, j as int));
                assert forall|k: int| longest_prefix(rv, path@, k) implies k == j by {
                    lemma_longest_prefix_unique(rv, path@, j as int, k);
                }
            }
            Some(j)
        },
    }
}

/// The policy that applies to `path`: the first exact rule, else the longest covering
/// `prefix/*` rule, else the project default. A stored name that is not a policy is
/// an integrity failure.
pub fn select_policy(rules: &Vec<PolicyRule>, path: &str, default_policy: &str) -> (r: Result<
    FilePolicy,
    AppError,
>)
    ensures
        match effective_policy(rules_view(rules@), path@, default_policy@) {
            Some(p) => r == Ok::<FilePolicy, AppError>(p),
            None => r matches Err(e) && integrity_message(e, "invalid file policy"@),
        },
{
    match find_deciding_rule(rules, path) {
        Some(i) => {
            assert(rules_view(rules@)[i as int] == rules@[i as int]@);
            FilePolicy::parse(rules[i].policy.as_str())
        },
        None => FilePolicy::parse(default_policy),
    }
}

/// The index of the first exact rule for `path`, or the number of rules.
pub open spec fn exact_scan_end(rules: Seq<RuleView>, path: Seq<char>) -> int {
    if exists|i: int| first_exact(rules, path, i) {
        (choose|i: int| first_exact(rules, path, i)) + 1
    } else {
        rules.len() as int
    }
}

/// Whether a rule read before the template lookup stops holds a name that is not a policy.
pub open spec fn template_rules_invalid(rules: Seq<RuleView>, path: Seq<char>) -> bool {
    exists|k: int|
        0 <= k < exact_scan_end(rules, path) && #[trigger] file_policy_from_name(rules[k].policy)
            is None
}

/// The template rule that applies to `path`, with no project default. Every rule is
/// read, and its policy checked, up to the first exact rule.
pub fn select_template_policy(rules: &Vec<PolicyRule>, path: &str) -> (r: Result<
    Option<FilePolicy>,
    AppError,
>)
    ensures
        template_rules_invalid(rules_view(rules@), path@) ==> (r matches Err(e)
            && integrity_message(e, "invalid file policy"@)),
        !template_rules_invalid(rules_view(rules@), path@) ==> r == Ok::<
            Option<FilePolicy>,
            AppError,
        >(
            match deciding_rule(rules_view(rules@), path@) {
                Some(i) => file_policy_from_name(rules_view(rules@)[i].policy),
                None => None,
            },
        ),
{
    let ghost rv = rules_view(rules@);
    let target = chars_of(path);
    let mut i: usize = 0;
    while i < rules.len()
        invariant
            rv == rules_view(rules@),
            target@ == path@,
            i <= rules@.len(),
            forall|k: int| 0 <= k < i ==> !exact_at(rv, path@, k),
            forall|k: int| 0 <= k < i ==> #[trigger] file_policy_from_name(rv[k].policy) is Some,
        decreases rules@.len() - i,
    {
        assert(rv[i as int] == rules@[i as int]@);
        let parsed = FilePolicy::parse(rules[i].policy.as_str());
        let pattern = chars_of(rules[i].pattern.as_str());
        let exact = chars_eq(&pattern, &target);
        proof {
            if exact {
                assert(first_exact(rv, path@, i as int));
                assert forall|j: int| first_exact(rv, path@, j) implies j == i by {
                    lemma_first_exact_unique(rv, path@, i as int, j);
                }
                assert(exact_scan_end(rv, path@) == i + 1);
            } else {
                assert forall|j: int| first_exact(rv, path@, j) implies j > i by {}
            }
        }
        match parsed {
            Err(e) => {
                proof {
                    assert(exact_scan_end(rv, path@) > i);
                    assert(file_policy_from_name(rv[i as int].policy) is None);
                }
                return Err(e);
            },
            Ok(_) => {},
        }
        if exact {
            let found = find_deciding_rule(rules, path);
            proof {
                assert(!template_rules_invalid(rv, path@));
            }
            return match found {
                Some(j) => {
                    assert(rv[j as int] == rules@[j as int]@);
                    match FilePolicy::parse(rules[j].policy.as_str()) {
                        Ok(p) => Ok(Some(p)),
                        Err(e) => Err(e),
                    }
                },
                None => Ok(None),
            };
        }
        i = i + 1;
    }
    let found = find_deciding_rule(rules, path);
    proof {
        assert(!exists|k: int| first_exact(rv, path@, k));
        assert(!template_rules_invalid(rv, path@));
    }
    match found {
        Some(j) => {
            assert(rv[j as int] == rules@[j as int]@);
            assert(file_policy_from_name(rv[j as int].policy) is Some);
            match FilePolicy::parse(rules[j].policy.as_str()) {
                Ok(p) => Ok(Some(p)),
                Err(e) => Err(e),
            }
        },
        None => Ok(None),
    }
}

/// One workspace operation, as far as the Main pointer reads it: its `op` name and
/// its `path`, `from` and `to` fields, each absent when the stored operation lacks it.
#[derive(Clone, Debug)]
pub struct MainOperation {
    pub op: Option<String>,
    pub path: Option<String>,
    pub from: Option<String>,
    pub to: Option<String>,
}

/// The mathematical value of a workspace operation.
pub ghost struct MainOperationView {
    pub op: Option<Seq<char>>,
    pub path: Option<Seq<char>>,
    pub from: Option<Seq<char>>,
    pub to: Option<Seq<char>>,
}

impl View for MainOperation {
    type V = MainOperationView;

    open spec fn view(&self) -> MainOperationView {
        MainOperationView {
            op: opt_view(self.op),
            path: opt_view(self.path),
            from: opt_view(self.from),
            to: opt_view(self.to),
        }
    }
}

/// Views of a sequence of workspace operations.
pub open spec fn main_operations_view(ops: Seq<MainOperation>) -> Seq<MainOperationView> {
    ops.map_values(|o: MainOperation| o@)
}

/// The Main pointer after one operation: `set_main_file` sets it, a rename of the Main
/// file moves it, a deletion of the Main file clears it, anything else keeps it.
pub open spec fn main_step(main: Option<Seq<char>>, op: MainOperationView) -> Option<Seq<char>> {
    if op.op == Some("set_main_file"@) {
        op.path
    } else if op.op == Some("rename_file"@) && main == op.from {
        op.to
    } else if op.op == Some("delete_file"@) && main == op.path {
        None
    } else {
        main
    }
}

/// The Main pointer after replaying `ops` in order from no pointer.
pub open spec fn replayed_main(ops: Seq<MainOperationView>) -> Option<Seq<char>>
    decreases ops.len(),
{
    if ops.len() == 0 {
        None
    } else {
        main_step(replayed_main(ops.drop_last()), ops.last())
    }
}

fn opt_str_eq(a: &Option<String>, b: &Option<String>) -> (r: bool)
    ensures
        r == (opt_view(*a) == opt_view(*b)),
{
    match (a, b) {
        (Some(x), Some(y)) => str_eq(x.as_str(), y.as_str()),
        (None, None) => true,
        _ => false,
    }
}

fn op_is(op: &Option<String>, name: &str) -> (r: bool)
    ensures
        r == (opt_view(*op) == Some(name@)),
{
    match op {
        Some(x) => str_eq(x.as_str(), name),
        None => false,
    }
}

/// Replays the Main-pointer portion of a workspace's durable operations, in order.
pub fn replay_main(operations: &Vec<MainOperation>) -> (main: Option<String>)
    ensures
        opt_view(main) == replayed_main(main_operations_view(operations@)),
{
    let ghost ov = main_operations_view(operations@);
    let mut main: Option<String> = None;
    let mut i: usize = 0;
    while i < operations.len()
        invariant
            ov == main_operations_view(operations@),
            i <= operations@.len(),
            opt_view(main) == replayed_main(ov.take(i as int)),
        decreases operations@.len() - i,
    {
        let op = &operations[i];
        proof {
            assert(ov.take(i + 1).drop_last() =~= ov.take(i as int));
            assert(ov.take(i + 1).last() == op@);
        }
        if op_is(&op.op, "set_main_file") {
            main = op.path.clone();
        } else if op_is(&op.op, "rename_file") && opt_str_eq(&main, &op.from) {
            main = op.to.clone();
        } else if op_is(&op.op, "delete_file") && opt_str_eq(&main, &op.path) {
            main = None;
        }
        i = i + 1;
    }
    assert(ov.take(operations@.len() as int) =~= ov);
    main
}

/// Setting Main decides the pointer, whatever came before.
pub proof fn law_set_main_decides(ops: Seq<MainOperationView>, op: MainOperationView)
    requires
        op.op == Some("set_main_file"@),
    ensures
        replayed_main(ops.push(op)) == op.path,
{
    assert(ops.push(op).drop_last() =~= ops);
}

/// A canonical rename of the Main file moves Main to the destination, so a rename never
/// leaves Main dangling.
pub proof fn law_main_follows_rename(ops: Seq<MainOperationView>, op: MainOperationView)
    requires
        op.op == Some("rename_file"@),
        op.from == replayed_main(ops),
    ensures
        replayed_main(ops.push(op)) == op.to,
{
    reveal_strlit("rename_file");
    reveal_strlit("set_main_file");
    assert("rename_file"@.len() != "set_main_file"@.len());
    assert(ops.push(op).drop_last() =~= ops);
}

/// Deleting the Main file clears Main.
pub proof fn law_deleting_main_clears_it(ops: Seq<MainOperationView>, op: MainOperationView)
    requires
        op.op == Some("delete_file"@),
        op.path == replayed_main(ops),
    ensures
        replayed_main(ops.push(op)) is None,
{
    reveal_strlit("rename_file");
    reveal_strlit("set_main_file");
    reveal_strlit("delete_file");
    assert("delete_file"@.len() != "set_main_file"@.len());
    assert("delete_file"@[0] != "rename_file"@[0]);
    assert(ops.push(op).drop_last() =~= ops);
}

/// Operations that touch neither Main nor the Main file leave Main unchanged.
pub proof fn law_other_operations_keep_main(ops: Seq<MainOperationView>, op: MainOperationView)
    requires
        op.op != Some("set_main_file"@),
        op.op == Some("rename_file"@) ==> op.from != replayed_main(ops),
        op.op == Some("delete_file"@) ==> op.path != replayed_main(ops),
    ensures
        replayed_main(ops.push(op)) == replayed_main(ops),
{
    assert(ops.push(op).drop_last() =~= ops);
}

/// Whether a template may seed a team project: its default policy and every rule policy
/// are policies, and its Main file is among its files.
pub open spec fn template_instantiable(
    policy_default: Seq<char>,
    main: Seq<char>,
    file_paths: Seq<String>,
    rule_policies: Seq<String>,
) -> bool {
    &&& file_policy_from_name(policy_default) is Some
    &&& exists|k: int| 0 <= k < file_paths.len() && #[trigger] file_paths[k]@ == main
    &&& forall|k: int| 0 <= k < rule_policies.len() ==> #[trigger] file_policy_from_name(rule_policies[k]@) is Some
}

/// Checks the release-critical state a template hands to a new team project.
pub fn check_template_instantiation(
    policy_default: &str,
    main: &str,
    file_paths: &Vec<String>,
    rule_policies: &Vec<String>,
) -> (r: Result<(), AppError>)
    ensures
        r is Ok <==> template_instantiable(policy_default@, main@, file_paths@, rule_policies@),
        r matches Err(e) ==> if file_policy_from_name(policy_default@) is Some && !exists|k: int|
            0 <= k < file_paths@.len() && #[trigger] file_paths@[k]@ == main@ {
            integrity_message(e, "template main file is absent from template files"@)
        } else {
            integrity_message(e, "invalid file policy"@)
        },
{
    match FilePolicy::parse(policy_default) {
        Err(e) => { return Err(e); },
        Ok(_) => {},
    }
    let mut found = false;
    let mut i: usize = 0;
    while i < file_paths.len()
        invariant
            i <= file_paths@.len(),
            found == exists|k: int| 0 <= k < i && #[trigger] file_paths@[k]@ == main@,
        decreases file_paths@.len() - i,
    {
        if str_eq(file_paths[i].as_str(), main) {
            found = true;
        }
        i = i + 1;
    }
    if !found {
        return Err(
            AppError::Integrity { message: "template main file is absent from template files".to_owned() },
        );
    }
    let mut j: usize = 0;
    while j < rule_policies.len()
        invariant
            j <= rule_policies@.len(),
            forall|k: int| 0 <= k < j ==> #[trigger] file_policy_from_name(rule_policies@[k]@) is Some,
            exists|k: int| 0 <= k < file_paths@.len() && #[trigger] file_paths@[k]@ == main@,
        decreases rule_policies@.len() - j,
    {
        match FilePolicy::parse(rule_policies[j].as_str()) {
            Err(e) => { return Err(e); },
            Ok(_) => {},
        }
        j = j + 1;
    }
    Ok(())
}

} // verus!
