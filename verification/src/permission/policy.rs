//! Which commands, variables and directories are allowed.
use crate::config::{list_contains, Config, ConfigText};
use crate::path::{
    ends_in_name, file_name, file_name_of, is_plain_name, lemma_file_name_behind_directory,
    lemma_file_name_lowered,
};
use crate::text::{
    ascii_upper, clone_strings, is_blank, lemma_lowered_twice, lemma_trim_lowered, lowercase, lowered, opt_text,
    texts, trim, trimmed, uppercase, uppered,
};
use vstd::prelude::*;

verus! {

/// The name by which a command is judged: its file name in lower case.
pub open spec fn command_name(command: Seq<char>) -> Option<Seq<char>> {
    let t = trimmed(command);
    if t.len() == 0 {
        None
    } else {
        let name = match file_name_of(t) {
            Some(f) => lowered(trimmed(f)),
            None => lowered(t),
        };
        if name.len() == 0 {
            None
        } else {
            Some(name)
        }
    }
}

/// The name by which a variable is judged: trimmed and in upper case.
pub open spec fn env_key(key: Seq<char>) -> Seq<char> {
    uppered(trimmed(key))
}

/// The names of the commands in a list.
pub open spec fn command_names(list: Seq<Seq<char>>) -> Set<Seq<char>> {
    Set::new(
        |n: Seq<char>|
            exists|i: int| 0 <= i < list.len() && command_name(#[trigger] list[i]) == Some(n),
    )
}

/// The names of the variables in a list, without the empty one.
pub open spec fn env_keys(list: Seq<Seq<char>>) -> Set<Seq<char>> {
    Set::new(
        |n: Seq<char>|
            n.len() > 0 && exists|i: int| 0 <= i < list.len() && env_key(#[trigger] list[i]) == n,
    )
}

/// Whether a name passes: it is not denied, and where any are allowed it is one
/// of them.
pub open spec fn passes(name: Seq<char>, allowed: Set<Seq<char>>, denied: Set<Seq<char>>) -> bool {
    !denied.contains(name) && (allowed == Set::<Seq<char>>::empty() || allowed.contains(name))
}

/// What local sessions may do.
#[derive(Debug, PartialEq, Eq)]
pub struct PermissionPolicy {
    allowed_commands: Vec<String>,
    denied_commands: Vec<String>,
    allowed_env_vars: Vec<String>,
    denied_env_vars: Vec<String>,
    allowed_cwd_roots: Vec<String>,
}

impl PermissionPolicy {
    /// The commands that are allowed, where any are named.
    pub closed spec fn commands_allowed(&self) -> Set<Seq<char>> {
        texts(self.allowed_commands@).to_set()
    }

    /// The commands that are denied.
    pub closed spec fn commands_denied(&self) -> Set<Seq<char>> {
        texts(self.denied_commands@).to_set()
    }

    /// The variables that are allowed, where any are named.
    pub closed spec fn env_allowed(&self) -> Set<Seq<char>> {
        texts(self.allowed_env_vars@).to_set()
    }

    /// The variables that are denied.
    pub closed spec fn env_denied(&self) -> Set<Seq<char>> {
        texts(self.denied_env_vars@).to_set()
    }

    /// The directories in which sessions may start.
    pub closed spec fn cwd_roots(&self) -> Seq<Seq<char>> {
        texts(self.allowed_cwd_roots@)
    }

    /// Whether the policy is the one that a configuration sets.
    pub open spec fn follows(&self, c: ConfigText) -> bool {
        &&& self.commands_allowed() == command_names(c.allowed_commands)
        &&& self.commands_denied() == command_names(c.denied_commands)
        &&& self.env_allowed() == env_keys(c.allowed_env_vars)
        &&& self.env_denied() == env_keys(c.denied_env_vars)
        &&& self.cwd_roots() == c.allowed_cwd_roots
    }

    /// Whether a command may run.
    pub open spec fn allows_command(&self, command: Seq<char>) -> bool {
        command_name(command) matches Some(n) && passes(
            n,
            self.commands_allowed(),
            self.commands_denied(),
        )
    }

    /// Whether a variable may be set.
    pub open spec fn allows_env(&self, key: Seq<char>) -> bool {
        passes(env_key(key), self.env_allowed(), self.env_denied())
    }

    /// The policy that a configuration sets.
    pub fn from_config(config: &Config) -> (r: Self)
        ensures
            r.follows(config@),
    {
        PermissionPolicy {
            allowed_commands: normalize_string_set(&config.allowed_commands),
            denied_commands: normalize_string_set(&config.denied_commands),
            allowed_env_vars: normalize_env_keys(&config.allowed_env_vars),
            denied_env_vars: normalize_env_keys(&config.denied_env_vars),
            allowed_cwd_roots: clone_strings(&config.allowed_cwd_roots),
        }
    }

    /// Whether a command may run.
    pub fn is_command_allowed(&self, command: &str) -> (r: bool)
        ensures
            r == self.allows_command(command@),
    {
        let name = match normalize_command_name(command) {
            Some(name) => name,
            None => {
                return false;
            },
        };
        if list_contains(&self.denied_commands, name.as_str()) {
            return false;
        }
        if self.allowed_commands.len() == 0 {
            assert(self.commands_allowed() =~= Set::<Seq<char>>::empty());
            return true;
        }
        proof {
            assert(self.commands_allowed().contains(texts(self.allowed_commands@)[0])) by {
                assert(texts(self.allowed_commands@).contains(texts(self.allowed_commands@)[0]));
            }
        }
        list_contains(&self.allowed_commands, name.as_str())
    }

    /// Whether a variable may be set.
    pub fn is_env_key_allowed(&self, key: &str) -> (r: bool)
        ensures
            r == self.allows_env(key@),
    {
        let name = normalize_env_key(key);
        if list_contains(&self.denied_env_vars, name.as_str()) {
            return false;
        }
        if self.allowed_env_vars.len() == 0 {
            assert(self.env_allowed() =~= Set::<Seq<char>>::empty());
            return true;
        }
        proof {
            assert(self.env_allowed().contains(texts(self.allowed_env_vars@)[0])) by {
                assert(texts(self.allowed_env_vars@).contains(texts(self.allowed_env_vars@)[0]));
            }
        }
        list_contains(&self.allowed_env_vars, name.as_str())
    }

    /// The directories in which sessions may start.
    pub fn allowed_cwd_roots(&self) -> (r: &Vec<String>)
        ensures
            texts(r@) == self.cwd_roots(),
    {
        &self.allowed_cwd_roots
    }
}

/// The name by which a command is judged.
pub fn normalize_command_name(command: &str) -> (r: Option<String>)
    ensures
        opt_text(r) == command_name(command@),
{
    let t = trim(command);
    if t.is_empty() {
        return None;
    }
    let name = match file_name(t) {
        Some(f) => lowercase(trim(f.as_str())),
        None => lowercase(t),
    };
    if name.as_str().is_empty() {
        None
    } else {
        Some(name)
    }
}

/// The name by which a variable is judged.
pub fn normalize_env_key(key: &str) -> (r: String)
    ensures
        r@ == env_key(key@),
{
    uppercase(trim(key))
}

fn normalize_env_keys(items: &Vec<String>) -> (r: Vec<String>)
    ensures
        texts(r@).to_set() == env_keys(texts(items@)),
{
    let mut r: Vec<String> = Vec::new();
    let mut i: usize = 0;
    proof {
        assert(texts(r@).to_set() =~= env_keys(texts(items@).take(0)));
    }
    while i < items.len()
        invariant
            i <= items@.len(),
            texts(r@).to_set() == env_keys(texts(items@).take(i as int)),
        decreases items@.len() - i,
    {
        let ghost before = texts(r@);
        let ghost item = texts(items@)[i as int];
        let key = normalize_env_key(items[i].as_str());
        let ghost part = texts(items@).take(i as int);
        let ghost more = texts(items@).take(i + 1);
        proof {
            assert(more =~= part.push(item));
            assert forall|n: Seq<char>| env_keys(more).contains(n) == (env_keys(part).contains(n)
                || (n == key@ && n.len() > 0)) by {
                if env_keys(part).contains(n) {
                    let k = choose|k: int| 0 <= k < part.len() && env_key(#[trigger] part[k]) == n;
                    assert(env_key(more[k]) == n);
                }
                if n == key@ {
                    assert(env_key(more[i as int]) == n);
                }
                if env_keys(more).contains(n) {
                    let k = choose|k: int| 0 <= k < more.len() && env_key(#[trigger] more[k]) == n;
                    if k < i {
                        assert(env_key(part[k]) == n);
                    }
                }
            }
        }
        if !key.as_str().is_empty() {
            r.push(key);
            proof {
                assert(texts(r@) =~= before.push(key@));
                before.lemma_push_to_set_commute(key@);
            }
        }
        assert(texts(r@).to_set() =~= env_keys(more));
        i = i + 1;
    }
    assert(texts(items@).take(i as int) =~= texts(items@));
    r
}

fn normalize_string_set(items: &Vec<String>) -> (r: Vec<String>)
    ensures
        texts(r@).to_set() == command_names(texts(items@)),
{
    let mut r: Vec<String> = Vec::new();
    let mut i: usize = 0;
    proof {
        assert(texts(r@).to_set() =~= command_names(texts(items@).take(0)));
    }
    while i < items.len()
        invariant
            i <= items@.len(),
            texts(r@).to_set() == command_names(texts(items@).take(i as int)),
        decreases items@.len() - i,
    {
        let ghost before = texts(r@);
        let ghost item = texts(items@)[i as int];
        let ghost part = texts(items@).take(i as int);
        let ghost more = texts(items@).take(i + 1);
        proof {
            assert(more =~= part.push(item));
            assert forall|n: Seq<char>| command_names(more).contains(n) == (command_names(
                part,
            ).contains(n) || command_name(item) == Some(n)) by {
                if command_names(part).contains(n) {
                    let k = choose|k: int|
                        0 <= k < part.len() && command_name(#[trigger] part[k]) == Some(n);
                    assert(command_name(more[k]) == Some(n));
                }
                if command_name(item) == Some(n) {
                    assert(command_name(more[i as int]) == Some(n));
                }
                if command_names(more).contains(n) {
                    let k = choose|k: int|
                        0 <= k < more.len() && command_name(#[trigger] more[k]) == Some(n);
                    if k < i {
                        assert(command_name(part[k]) == Some(n));
                    }
                }
            }
        }
        match normalize_command_name(items[i].as_str()) {
            Some(name) => {
                r.push(name);
                proof {
                    assert(texts(r@) =~= before.push(name@));
                    before.lemma_push_to_set_commute(name@);
                }
            },
            None => {},
        }
        assert(texts(r@).to_set() =~= command_names(more));
        i = i + 1;
    }
    assert(texts(items@).take(i as int) =~= texts(items@));
    r
}

/// What is denied does not pass, whatever is allowed; and what is neither denied
/// nor named passes only where nothing is named.
pub proof fn law_denial_prevails(name: Seq<char>, allowed: Set<Seq<char>>, denied: Set<Seq<char>>)
    ensures
        denied.contains(name) ==> !passes(name, allowed, denied),
        passes(name, allowed, denied) && !allowed.contains(name) ==> allowed == Set::<
            Seq<char>,
        >::empty(),
{
}

/// Whether two texts are alike but for case and for blanks around them.
pub open spec fn alike(a: Seq<char>, b: Seq<char>) -> bool {
    lowered(trimmed(a)) == lowered(trimmed(b))
}

/// Whether two entries name one command: they are alike but for case, for blanks
/// around them and for a directory part in front of the same plain name.
pub open spec fn alike_commands(a: Seq<char>, b: Seq<char>) -> bool {
    alike(a, b) || exists|n: Seq<char>| #[trigger]
        is_plain_name(n) && ends_in_name(lowered(trimmed(a)), n) && ends_in_name(
            lowered(trimmed(b)),
            n,
        )
}

/// Whether each entry of a list that is not blank has one alike in another list.
pub open spec fn is_covered(
    list: Seq<Seq<char>>,
    by: Seq<Seq<char>>,
    same: spec_fn(Seq<char>, Seq<char>) -> bool,
) -> bool {
    forall|i: int|
        0 <= i < list.len() && !is_blank(#[trigger] list[i]) ==> exists|j: int|
            0 <= j < by.len() && same(list[i], #[trigger] by[j])
}

/// Whether two lists of commands differ at most in order, repetition, blank entries
/// and in how each command is written.
pub open spec fn alike_command_lists(a: Seq<Seq<char>>, b: Seq<Seq<char>>) -> bool {
    let same = |x: Seq<char>, y: Seq<char>| alike_commands(x, y);
    is_covered(a, b, same) && is_covered(b, a, same)
}

/// Whether two lists of variables differ at most in order, repetition, blank entries
/// and in how each variable is written.
pub open spec fn alike_key_lists(a: Seq<Seq<char>>, b: Seq<Seq<char>>) -> bool {
    let same = |x: Seq<char>, y: Seq<char>| alike(x, y);
    is_covered(a, b, same) && is_covered(b, a, same)
}

/// The name of a command depends on its text in lower case, without blanks around.
proof fn lemma_command_name_lowered(a: Seq<char>)
    ensures
        ({
            let x = lowered(trimmed(a));
            let name = match file_name_of(x) {
                Some(f) => lowered(trimmed(f)),
                None => x,
            };
            command_name(a) == if x.len() == 0 || name.len() == 0 {
                None
            } else {
                Some(name)
            }
        }),
{
    let t = trimmed(a);
    lemma_file_name_lowered(t);
    if file_name_of(t) is Some {
        let f = file_name_of(t)->0;
        lemma_trim_lowered(f);
        lemma_lowered_twice(trimmed(f));
    }
}

/// Entries that name one command have one name.
proof fn lemma_alike_commands(a: Seq<char>, b: Seq<char>)
    requires
        alike_commands(a, b),
    ensures
        command_name(a) == command_name(b),
{
    lemma_command_name_lowered(a);
    lemma_command_name_lowered(b);
    if !alike(a, b) {
        let x = lowered(trimmed(a));
        let y = lowered(trimmed(b));
        let n = choose|n: Seq<char>| #[trigger]
            is_plain_name(n) && ends_in_name(x, n) && ends_in_name(y, n);
        lemma_file_name_behind_directory(x, n);
        lemma_file_name_behind_directory(y, n);
    }
}

proof fn lemma_covered_commands(a: Seq<Seq<char>>, b: Seq<Seq<char>>)
    requires
        is_covered(a, b, |x: Seq<char>, y: Seq<char>| alike_commands(x, y)),
    ensures
        command_names(a).subset_of(command_names(b)),
{
    assert forall|n: Seq<char>| command_names(a).contains(n) implies command_names(b).contains(
        n,
    ) by {
        let i = choose|i: int| 0 <= i < a.len() && command_name(#[trigger] a[i]) == Some(n);
        assert(!is_blank(a[i]));
        let j = choose|j: int| 0 <= j < b.len() && alike_commands(a[i], #[trigger] b[j]);
        lemma_alike_commands(a[i], b[j]);
        assert(command_name(b[j]) == Some(n));
    }
}

proof fn lemma_covered_keys(a: Seq<Seq<char>>, b: Seq<Seq<char>>)
    requires
        is_covered(a, b, |x: Seq<char>, y: Seq<char>| alike(x, y)),
    ensures
        env_keys(a).subset_of(env_keys(b)),
{
    assert forall|n: Seq<char>| env_keys(a).contains(n) implies env_keys(b).contains(n) by {
        let i = choose|i: int| 0 <= i < a.len() && env_key(#[trigger] a[i]) == n;
        assert(!is_blank(a[i]));
        let j = choose|j: int| 0 <= j < b.len() && alike(a[i], #[trigger] b[j]);
        lemma_lowered_twice(trimmed(a[i]));
        lemma_lowered_twice(trimmed(b[j]));
        assert(env_key(b[j]) == n);
    }
}

/// Configurations whose lists differ at most in order, repetition, case, blanks,
/// blank entries and, for commands, in a directory part, and whose directories are
/// the same, set one policy: it gives the same answer about every command and every
/// variable.
pub proof fn law_alike_lists_set_one_policy(
    a: ConfigText,
    b: ConfigText,
    p: PermissionPolicy,
    q: PermissionPolicy,
    text: Seq<char>,
)
    requires
        alike_command_lists(a.allowed_commands, b.allowed_commands),
        alike_command_lists(a.denied_commands, b.denied_commands),
        alike_key_lists(a.allowed_env_vars, b.allowed_env_vars),
        alike_key_lists(a.denied_env_vars, b.denied_env_vars),
        a.allowed_cwd_roots == b.allowed_cwd_roots,
        p.follows(a),
        q.follows(b),
    ensures
        p.allows_command(text) == q.allows_command(text),
        p.allows_env(text) == q.allows_env(text),
        p.cwd_roots() == q.cwd_roots(),
        p.cwd_roots() == a.allowed_cwd_roots,
        p.commands_allowed() == q.commands_allowed(),
        p.commands_denied() == q.commands_denied(),
        p.env_allowed() == q.env_allowed(),
        p.env_denied() == q.env_denied(),
{
    lemma_covered_commands(a.allowed_commands, b.allowed_commands);
    lemma_covered_commands(b.allowed_commands, a.allowed_commands);
    lemma_covered_commands(a.denied_commands, b.denied_commands);
    lemma_covered_commands(b.denied_commands, a.denied_commands);
    lemma_covered_keys(a.allowed_env_vars, b.allowed_env_vars);
    lemma_covered_keys(b.allowed_env_vars, a.allowed_env_vars);
    lemma_covered_keys(a.denied_env_vars, b.denied_env_vars);
    lemma_covered_keys(b.denied_env_vars, a.denied_env_vars);
    assert(p.commands_allowed() =~= q.commands_allowed());
    assert(p.commands_denied() =~= q.commands_denied());
    assert(p.env_allowed() =~= q.env_allowed());
    assert(p.env_denied() =~= q.env_denied());
}

/// A command is judged by its name, in lower case, wherever the file of that name is; a
/// blank command has none.
pub proof fn law_commands_are_judged_by_their_name(command: Seq<char>, n: Seq<char>)
    ensures
        is_plain_name(n) && trimmed(n) == n && ends_in_name(trimmed(command), n) ==> command_name(
            command,
        ) == Some(lowered(n)),
        trimmed(command).len() == 0 ==> command_name(command) is None,
{
    if is_plain_name(n) && trimmed(n) == n && ends_in_name(trimmed(command), n) {
        lemma_file_name_behind_directory(trimmed(command), n);
        assert(lowered(n).len() == n.len());
    }
}

/// A variable is judged by its name without white space around it and in upper case.
pub proof fn law_variables_are_judged_in_upper_case(key: Seq<char>)
    ensures
        env_key(key).len() == trimmed(key).len(),
        forall|i: int|
            0 <= i < env_key(key).len() ==> {
                let c = trimmed(key)[i];
                &&& 'a' <= c && c <= 'z' ==> #[trigger] env_key(key)[i] as int == c as int - 32
                &&& !('a' <= c && c <= 'z') ==> env_key(key)[i] == c
            },
{
    let t = trimmed(key);
    assert forall|i: int| 0 <= i < env_key(key).len() implies {
        let c = t[i];
        &&& 'a' <= c && c <= 'z' ==> #[trigger] env_key(key)[i] as int == c as int - 32
        &&& !('a' <= c && c <= 'z') ==> env_key(key)[i] == c
    } by {
        assert(env_key(key)[i] == ascii_upper(t[i]));
    }
}

/// A command may run exactly where it has a name that no denied entry has and, where any
/// allowed entry has a name, one of those has the same.
pub proof fn law_lists_decide_on_commands(
    policy: PermissionPolicy,
    c: ConfigText,
    command: Seq<char>,
)
    requires
        policy.follows(c),
    ensures
        policy.allows_command(command) <==> {
            let n = command_name(command);
            &&& n is Some
            &&& forall|i: int|
                0 <= i < c.denied_commands.len() ==> command_name(#[trigger] c.denied_commands[i])
                    != n
            &&& (forall|i: int|
                0 <= i < c.allowed_commands.len() ==> command_name(
                    #[trigger] c.allowed_commands[i],
                ) is None) || exists|i: int|
                0 <= i < c.allowed_commands.len() && command_name(#[trigger] c.allowed_commands[i])
                    == n
        },
{
    let allowed = command_names(c.allowed_commands);
    let n = command_name(command);
    if n is Some {
        if allowed == Set::<Seq<char>>::empty() {
            assert forall|i: int| 0 <= i < c.allowed_commands.len() implies command_name(
                #[trigger] c.allowed_commands[i],
            ) is None by {
                if command_name(c.allowed_commands[i]) is Some {
                    assert(allowed.contains(command_name(c.allowed_commands[i])->0));
                }
            }
        }
        if forall|i: int|
            0 <= i < c.allowed_commands.len() ==> command_name(#[trigger] c.allowed_commands[i])
                is None {
            assert(allowed =~= Set::<Seq<char>>::empty());
        }
    }
}

/// A variable may be set exactly where no denied entry has its name and, where any
/// allowed entry has a name, one of those has the same.
pub proof fn law_lists_decide_on_variables(
    policy: PermissionPolicy,
    c: ConfigText,
    key: Seq<char>,
)
    requires
        policy.follows(c),
        env_key(key).len() > 0,
    ensures
        policy.allows_env(key) <==> {
            let n = env_key(key);
            &&& forall|i: int|
                0 <= i < c.denied_env_vars.len() ==> env_key(#[trigger] c.denied_env_vars[i]) != n
            &&& (forall|i: int|
                0 <= i < c.allowed_env_vars.len() ==> env_key(
                    #[trigger] c.allowed_env_vars[i],
                ).len() == 0) || exists|i: int|
                0 <= i < c.allowed_env_vars.len() && env_key(#[trigger] c.allowed_env_vars[i]) == n
        },
{
    let allowed = env_keys(c.allowed_env_vars);
    if allowed == Set::<Seq<char>>::empty() {
        assert forall|i: int| 0 <= i < c.allowed_env_vars.len() implies env_key(
            #[trigger] c.allowed_env_vars[i],
        ).len() == 0 by {
            if env_key(c.allowed_env_vars[i]).len() > 0 {
                assert(allowed.contains(env_key(c.allowed_env_vars[i])));
            }
        }
    }
    if forall|i: int|
        0 <= i < c.allowed_env_vars.len() ==> env_key(#[trigger] c.allowed_env_vars[i]).len()
            == 0 {
        assert(allowed =~= Set::<Seq<char>>::empty());
    }
}

} // verus!
