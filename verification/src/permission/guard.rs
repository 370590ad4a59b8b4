//! Checks what a local session is asked to run.
use super::policy::{env_key, normalize_command_name, normalize_env_key, PermissionPolicy};
use super::policy::command_name;
use crate::error::Failure;
use crate::json::{scalar_text, JsonValue};
use crate::ordered::{map_texts, OrderedMap};
use crate::path::{is_absolute, is_absolute_path, is_within, join_path, joined_path, lies_within};
use crate::text::{
    cat2, cat3, cat4, clone_strings, debug_list, debug_strings, is_blank, opt_text, texts, trim,
    trimmed,
};
use vstd::prelude::*;

verus! {

/// What a local session is asked to run. The variables are in the order in which
/// they came.
#[derive(Debug, PartialEq, Eq)]
pub struct SpawnValidationInput {
    pub command: String,
    pub args: Vec<String>,
    pub cwd: Option<String>,
    pub env: Option<Vec<(String, JsonValue)>>,
}

/// What a local session may run.
#[derive(Debug, PartialEq, Eq)]
pub struct SpawnValidationResult {
    pub command: String,
    pub args: Vec<String>,
    pub cwd: Option<String>,
    pub env: OrderedMap<String>,
}

/// What the file system says of a working directory.
#[derive(Debug, PartialEq, Eq)]
pub struct CwdFacts {
    /// The current directory, or why it is not known.
    pub current_dir: Result<String, String>,
    /// Whether the asked directory exists.
    pub exists: bool,
    /// The asked directory without links, or why it has no such form.
    pub canonical: Result<String, String>,
    /// The allowed directories without links, those that have such a form.
    pub canonical_roots: Vec<String>,
}

/// The path that a working directory stands for.
pub open spec fn cwd_path(cwd: Seq<char>, current_dir: Seq<char>) -> Seq<char> {
    joined_path(current_dir, trimmed(cwd))
}

/// Whether a path lies within one of the directories.
pub open spec fn within_any(path: Seq<char>, roots: Seq<Seq<char>>) -> bool {
    exists|i: int| 0 <= i < roots.len() && lies_within(path, #[trigger] roots[i])
}

/// Why a working directory is refused, if it is.
pub open spec fn cwd_refusal(cwd: Seq<char>, facts: CwdFacts, roots: Seq<Seq<char>>) -> Option<
    Seq<char>,
> {
    let t = trimmed(cwd);
    if t.len() == 0 {
        Some("cwd cannot be empty when provided"@)
    } else if !is_absolute_path(t) && facts.current_dir is Err {
        Some("unable to resolve cwd="@ + t + ": "@ + facts.current_dir->Err_0@)
    } else if !facts.exists {
        Some("cwd path does not exist: cwd="@ + t)
    } else {
        match facts.canonical {
            Err(why) => Some("unable to canonicalize cwd="@ + t + ": "@ + why@),
            Ok(path) => if within_any(path@, texts(facts.canonical_roots@)) {
                None
            } else {
                Some(
                    "cwd is not within allowed roots: cwd="@ + path@ + " allowed_cwd_roots="@
                        + debug_list(roots),
                )
            },
        }
    }
}

/// Why a command is refused, if it is.
pub open spec fn command_refusal(policy: PermissionPolicy, command: Seq<char>) -> Option<Seq<char>> {
    match command_name(command) {
        None => Some("command cannot be empty"@),
        Some(name) => if policy.allows_command(name) {
            None
        } else {
            Some("command is blocked by permission policy: command="@ + command)
        },
    }
}

/// Why one variable is refused, if it is.
pub open spec fn variable_refusal(
    policy: PermissionPolicy,
    key: Seq<char>,
    value: JsonValue,
) -> Option<Seq<char>> {
    if env_key(key).len() == 0 {
        Some("environment variable key cannot be empty: env key="@ + key)
    } else if !policy.allows_env(env_key(key)) {
        Some("environment variable is blocked by permission policy: env key="@ + key)
    } else if scalar_text(value) is Some {
        None
    } else if value is Null {
        Some(
            "environment variable value cannot be null: env key="@ + key
                + " expected=string|number|bool"@,
        )
    } else {
        Some(
            "environment variable value must be scalar: env key="@ + key
                + " expected=string|number|bool"@,
        )
    }
}

/// The environment that variables make, the later ones prevailing, or why the
/// first refused one of them is refused.
pub open spec fn checked_env(policy: PermissionPolicy, env: Seq<(String, JsonValue)>) -> Result<
    Map<Seq<char>, Seq<char>>,
    Seq<char>,
>
    decreases env.len(),
{
    if env.len() == 0 {
        Ok(Map::empty())
    } else {
        match checked_env(policy, env.drop_last()) {
            Err(why) => Err(why),
            Ok(map) => match variable_refusal(policy, env.last().0@, env.last().1) {
                Some(why) => Err(why),
                None => Ok(map.insert(env_key(env.last().0@), scalar_text(env.last().1)->0)),
            },
        }
    }
}

/// The environment of a request, which may have none.
pub open spec fn checked_env_opt(
    policy: PermissionPolicy,
    env: Option<Vec<(String, JsonValue)>>,
) -> Result<Map<Seq<char>, Seq<char>>, Seq<char>> {
    match env {
        Some(v) => checked_env(policy, v@),
        None => Ok(Map::empty()),
    }
}

/// Why a request is refused, if it is: the command is judged first, the working
/// directory second, the environment last.
pub open spec fn spawn_refusal(
    policy: PermissionPolicy,
    input: SpawnValidationInput,
    facts: CwdFacts,
) -> Option<Seq<char>> {
    if command_refusal(policy, input.command@) is Some {
        command_refusal(policy, input.command@)
    } else if input.cwd is Some && cwd_refusal(input.cwd->0@, facts, policy.cwd_roots()) is Some {
        cwd_refusal(input.cwd->0@, facts, policy.cwd_roots())
    } else {
        match checked_env_opt(policy, input.env) {
            Err(why) => Some(why),
            Ok(_) => None,
        }
    }
}

/// Checks what local sessions are asked to run.
#[derive(Debug, PartialEq, Eq)]
pub struct PermissionGuard {
    policy: PermissionPolicy,
}

impl PermissionGuard {
    /// The policy that the guard keeps.
    pub closed spec fn view(&self) -> PermissionPolicy {
        self.policy
    }

    /// A guard that keeps a policy.
    pub fn new(policy: PermissionPolicy) -> (r: Self)
        ensures
            r@ == policy,
    {
        PermissionGuard { policy }
    }

    /// The policy that the guard keeps.
    pub fn policy(&self) -> (r: &PermissionPolicy)
        ensures
            *r == self@,
    {
        &self.policy
    }

    /// The path that has to be looked up for a working directory, where there is
    /// one to look up.
    pub fn cwd_to_look_up(&self, cwd: &Option<String>, current_dir: &Result<String, String>) -> (r:
        Option<String>)
        ensures
            match r {
                Some(p) => {
                    &&& *cwd is Some
                    &&& !is_blank((*cwd)->0@)
                    &&& is_absolute_path(trimmed((*cwd)->0@)) || *current_dir is Ok
                    &&& p@ == if is_absolute_path(trimmed((*cwd)->0@)) {
                        trimmed((*cwd)->0@)
                    } else {
                        cwd_path((*cwd)->0@, (*current_dir)->Ok_0@)
                    }
                },
                None => *cwd is None || is_blank((*cwd)->0@) || (!is_absolute_path(
                    trimmed((*cwd)->0@),
                ) && *current_dir is Err),
            },
    {
        match cwd {
            None => None,
            Some(c) => {
                let t = trim(c.as_str());
                if t.is_empty() {
                    None
                } else if is_absolute(t) {
                    Some(t.to_owned())
                } else {
                    match current_dir {
                        Ok(dir) => Some(join_path(dir.as_str(), t)),
                        Err(_) => None,
                    }
                }
            },
        }
    }

    /// Checks a request, given what the file system says of its working
    /// directory.
    pub fn validate_spawn(&self, input: &SpawnValidationInput, facts: &CwdFacts) -> (r: Result<
        SpawnValidationResult,
        Failure,
    >)
        ensures
            match r {
                Ok(v) => {
                    &&& spawn_refusal(self@, *input, *facts) is None
                    &&& v.command@ == input.command@
                    &&& v.args@ == input.args@
                    &&& opt_text(v.cwd) == if input.cwd is Some {
                        Some(facts.canonical->Ok_0@)
                    } else {
                        None
                    }
                    &&& v.env.wf()
                    &&& checked_env_opt(self@, input.env) == Ok::<
                        Map<Seq<char>, Seq<char>>,
                        Seq<char>,
                    >(map_texts(v.env@))
                },
                Err(e) => spawn_refusal(self@, *input, *facts) == Some(e@),
            },
    {
        let command = match self.validate_command(input.command.as_str()) {
            Ok(c) => c,
            Err(e) => {
                return Err(e);
            },
        };
        let cwd = match &input.cwd {
            None => None,
            Some(c) => match self.validate_cwd(c.as_str(), facts) {
                Ok(p) => Some(p),
                Err(e) => {
                    return Err(e);
                },
            },
        };
        let env = match &input.env {
            None => {
                let env: OrderedMap<String> = OrderedMap::new();
                assert(map_texts(env@) =~= Map::<Seq<char>, Seq<char>>::empty());
                env
            },
            Some(v) => match self.validate_env(v) {
                Ok(env) => env,
                Err(e) => {
                    return Err(e);
                },
            },
        };
        Ok(SpawnValidationResult { command, args: clone_strings(&input.args), cwd, env })
    }

    fn validate_command(&self, command: &str) -> (r: Result<String, Failure>)
        ensures
            match r {
                Ok(c) => command_refusal(self@, command@) is None && c@ == command@,
                Err(e) => command_refusal(self@, command@) == Some(e@),
            },
    {
        match normalize_command_name(command) {
            None => Err(Failure::new("command cannot be empty".to_owned())),
            Some(name) => {
                if self.policy.is_command_allowed(name.as_str()) {
                    Ok(command.to_owned())
                } else {
                    Err(
                        Failure::new(
                            cat2("command is blocked by permission policy: command=", command),
                        ),
                    )
                }
            },
        }
    }

    fn validate_cwd(&self, cwd: &str, facts: &CwdFacts) -> (r: Result<String, Failure>)
        ensures
            match r {
                Ok(p) => cwd_refusal(cwd@, *facts, self@.cwd_roots()) is None && p@
                    == facts.canonical->Ok_0@,
                Err(e) => cwd_refusal(cwd@, *facts, self@.cwd_roots()) == Some(e@),
            },
    {
        let t = trim(cwd);
        if t.is_empty() {
            return Err(Failure::new("cwd cannot be empty when provided".to_owned()));
        }
        if !is_absolute(t) {
            match &facts.current_dir {
                Ok(_) => {},
                Err(why) => {
                    return Err(
                        Failure::new(cat4("unable to resolve cwd=", t, ": ", why.as_str())),
                    );
                },
            }
        }
        if !facts.exists {
            return Err(Failure::new(cat2("cwd path does not exist: cwd=", t)));
        }
        let canonical = match &facts.canonical {
            Ok(p) => p,
            Err(why) => {
                return Err(
                    Failure::new(cat4("unable to canonicalize cwd=", t, ": ", why.as_str())),
                );
            },
        };
        if !within_one_of(canonical.as_str(), &facts.canonical_roots) {
            let roots = debug_strings(self.policy.allowed_cwd_roots());
            return Err(
                Failure::new(
                    cat4(
                        "cwd is not within allowed roots: cwd=",
                        canonical.as_str(),
                        " allowed_cwd_roots=",
                        roots.as_str(),
                    ),
                ),
            );
        }
        Ok(canonical.clone())
    }

    fn validate_env(&self, env: &Vec<(String, JsonValue)>) -> (r: Result<
        OrderedMap<String>,
        Failure,
    >)
        ensures
            match r {
                Ok(map) => map.wf() && checked_env(self@, env@) == Ok::<
                    Map<Seq<char>, Seq<char>>,
                    Seq<char>,
                >(map_texts(map@)),
                Err(e) => checked_env(self@, env@) == Err::<Map<Seq<char>, Seq<char>>, Seq<char>>(
                    e@,
                ),
            },
    {
        let mut map: OrderedMap<String> = OrderedMap::new();
        let mut i: usize = 0;
        proof {
            assert(env@.take(0) =~= Seq::<(String, JsonValue)>::empty());
            assert(map_texts(map@) =~= Map::<Seq<char>, Seq<char>>::empty());
        }
        while i < env.len()
            invariant
                i <= env@.len(),
                map.wf(),
                checked_env(self@, env@.take(i as int)) == Ok::<
                    Map<Seq<char>, Seq<char>>,
                    Seq<char>,
                >(map_texts(map@)),
            decreases env@.len() - i,
        {
            let ghost before = map@;
            let entry = &env[i];
            let key = normalize_env_key(entry.0.as_str());
            proof {
                let t = env@.take(i + 1);
                assert(t.drop_last() =~= env@.take(i as int));
                assert(t.last() == env@[i as int]);
                lemma_env_stops(self@, env@, i + 1);
            }
            if key.as_str().is_empty() {
                return Err(
                    Failure::new(
                        cat2(
                            "environment variable key cannot be empty: env key=",
                            entry.0.as_str(),
                        ),
                    ),
                );
            }
            if !self.policy.is_env_key_allowed(key.as_str()) {
                return Err(
                    Failure::new(
                        cat2(
                            "environment variable is blocked by permission policy: env key=",
                            entry.0.as_str(),
                        ),
                    ),
                );
            }
            let ghost k = key@;
            match entry.1.scalar() {
                Some(value) => {
                    let _ = map.insert(key, value);
                    assert(map_texts(map@) =~= map_texts(before).insert(k, value@));
                },
                None => {
                    let text = if entry.1.is_null() {
                        "environment variable value cannot be null: env key="
                    } else {
                        "environment variable value must be scalar: env key="
                    };
                    return Err(
                        Failure::new(
                            cat3(text, entry.0.as_str(), " expected=string|number|bool"),
                        ),
                    );
                },
            }
            i = i + 1;
        }
        assert(env@.take(i as int) =~= env@);
        Ok(map)
    }
}

/// A refused variable among the first ones refuses the whole environment.
proof fn lemma_env_stops(policy: PermissionPolicy, env: Seq<(String, JsonValue)>, i: int)
    requires
        0 <= i <= env.len(),
    ensures
        checked_env(policy, env.take(i)) is Err ==> checked_env(policy, env) == checked_env(
            policy,
            env.take(i),
        ),
    decreases env.len(),
{
    if i < env.len() {
        lemma_env_stops(policy, env.drop_last(), i);
        assert(env.drop_last().take(i) =~= env.take(i));
    } else {
        assert(env.take(i) =~= env);
    }
}

/// Whether a path lies within one of the directories.
pub fn within_one_of(path: &str, roots: &Vec<String>) -> (r: bool)
    ensures
        r == within_any(path@, texts(roots@)),
{
    let mut i: usize = 0;
    while i < roots.len()
        invariant
            i <= roots@.len(),
            forall|k: int| 0 <= k < i ==> !lies_within(path@, #[trigger] texts(roots@)[k]),
        decreases roots@.len() - i,
    {
        if is_within(path, roots[i].as_str()) {
            assert(lies_within(path@, texts(roots@)[i as int]));
            return true;
        }
        i = i + 1;
    }
    false
}

/// An environment that passes holds no denied variable.
pub proof fn law_no_denied_variable_passes(
    policy: PermissionPolicy,
    env: Seq<(String, JsonValue)>,
    key: Seq<char>,
)
    requires
        checked_env(policy, env) is Ok,
        checked_env(policy, env)->Ok_0.contains_key(key),
    ensures
        policy.allows_env(key),
    decreases env.len(),
{
    if env.len() > 0 {
        let head = checked_env(policy, env.drop_last())->Ok_0;
        if head.contains_key(key) {
            law_no_denied_variable_passes(policy, env.drop_last(), key);
        }
    }
}

/// A session passes the guard exactly where its command is allowed; its directory, where
/// it names one, is there and lies without links in an allowed one; and each of its
/// variables is allowed and has a name and a string, a number or a truth value.
pub proof fn law_guard_lets_pass_what_is_allowed(
    policy: PermissionPolicy,
    input: SpawnValidationInput,
    facts: CwdFacts,
)
    ensures
        spawn_refusal(policy, input, facts) is None <==> {
            let cwd = trimmed(input.cwd->0@);
            &&& command_name(input.command@) is Some
            &&& policy.allows_command(command_name(input.command@)->0)
            &&& input.cwd is Some ==> {
                &&& cwd.len() > 0
                &&& cwd[0] == '/' || facts.current_dir is Ok
                &&& facts.exists
                &&& facts.canonical is Ok
                &&& exists|i: int|
                    0 <= i < facts.canonical_roots@.len() && lies_within(
                        facts.canonical->Ok_0@,
                        (#[trigger] facts.canonical_roots@[i])@,
                    )
            }
            &&& input.env is Some ==> forall|i: int|
                0 <= i < input.env->0@.len() ==> {
                    let v = #[trigger] input.env->0@[i];
                    &&& env_key(v.0@).len() > 0
                    &&& policy.allows_env(env_key(v.0@))
                    &&& v.1 is Text || v.1 is Number || v.1 is Bool
                }
        },
{
    let roots = texts(facts.canonical_roots@);
    if facts.canonical is Ok {
        let path = facts.canonical->Ok_0@;
        if within_any(path, roots) {
            let i = choose|i: int| 0 <= i < roots.len() && lies_within(path, #[trigger] roots[i]);
            assert(lies_within(path, facts.canonical_roots@[i]@));
        }
        if exists|i: int|
            0 <= i < facts.canonical_roots@.len() && lies_within(
                path,
                (#[trigger] facts.canonical_roots@[i])@,
            ) {
            let i = choose|i: int|
                0 <= i < facts.canonical_roots@.len() && lies_within(
                    path,
                    (#[trigger] facts.canonical_roots@[i])@,
                );
            assert(lies_within(path, roots[i]));
        }
    }
    if input.env is Some {
        law_variables_pass_as_given(policy, input.env->0@, seq![], 0);
    }
}

/// Variables pass exactly where each of them is allowed and has a name and a string, a
/// number or a truth value. Then those that are named are set, in upper case, and no
/// others, each to the value that it is given last.
pub proof fn law_variables_pass_as_given(
    policy: PermissionPolicy,
    env: Seq<(String, JsonValue)>,
    k: Seq<char>,
    last: int,
)
    ensures
        checked_env(policy, env) is Ok <==> forall|i: int|
            0 <= i < env.len() ==> env_key((#[trigger] env[i]).0@).len() > 0 && policy.allows_env(
                env_key(env[i].0@),
            ) && (env[i].1 is Text || env[i].1 is Number || env[i].1 is Bool),
        checked_env(policy, env) matches Ok(map) ==> (map.contains_key(k) <==> exists|i: int|
            0 <= i < env.len() && env_key((#[trigger] env[i]).0@) == k),
        checked_env(policy, env) matches Ok(map) ==> (0 <= last < env.len() && env_key(
            env[last].0@,
        ) == k && (forall|j: int|
            last < j < env.len() ==> env_key((#[trigger] env[j]).0@) != k)) ==> map[k]
            == scalar_text(env[last].1)->0,
    decreases env.len(),
{
    if env.len() > 0 {
        let front = env.drop_last();
        law_variables_pass_as_given(policy, front, k, last);
        let all = forall|i: int|
            0 <= i < env.len() ==> env_key((#[trigger] env[i]).0@).len() > 0 && policy.allows_env(
                env_key(env[i].0@),
            ) && (env[i].1 is Text || env[i].1 is Number || env[i].1 is Bool);
        if checked_env(policy, env) is Ok {
            assert forall|i: int| 0 <= i < env.len() implies env_key((#[trigger] env[i]).0@).len()
                > 0 && policy.allows_env(env_key(env[i].0@)) && (env[i].1 is Text
                || env[i].1 is Number || env[i].1 is Bool) by {
                if i < front.len() {
                    assert(front[i] == env[i]);
                }
            }
            let map = checked_env(policy, env)->Ok_0;
            if map.contains_key(k) {
                if env_key(env.last().0@) == k {
                    assert(env_key(env[env.len() - 1].0@) == k);
                } else {
                    let i = choose|i: int|
                        0 <= i < front.len() && env_key((#[trigger] front[i]).0@) == k;
                    assert(env_key(env[i].0@) == k);
                }
            }
            if exists|i: int| 0 <= i < env.len() && env_key((#[trigger] env[i]).0@) == k {
                let i = choose|i: int| 0 <= i < env.len() && env_key((#[trigger] env[i]).0@) == k;
                if i < front.len() {
                    assert(env_key(front[i].0@) == k);
                }
            }
            if 0 <= last < env.len() && env_key(env[last].0@) == k && (forall|j: int|
                last < j < env.len() ==> env_key((#[trigger] env[j]).0@) != k) {
                if last < front.len() {
                    assert(front[last] == env[last]);
                    assert forall|j: int| last < j < front.len() implies env_key(
                        (#[trigger] front[j]).0@,
                    ) != k by {
                        assert(front[j] == env[j]);
                    }
                    assert(env_key(env[env.len() - 1].0@) != k);
                }
            }
        } else if all {
            assert forall|i: int| 0 <= i < front.len() implies env_key(
                (#[trigger] front[i]).0@,
            ).len() > 0 && policy.allows_env(env_key(front[i].0@)) && (front[i].1 is Text
                || front[i].1 is Number || front[i].1 is Bool) by {
                assert(front[i] == env[i]);
            }
            assert(env_key(env[env.len() - 1].0@).len() > 0);
        }
    }
}

/// A working directory is taken as it is where it is absolute, and else from the current
/// directory; white space around it is left out.
pub proof fn law_working_directories_are_taken_from_the_current_one(
    cwd: Seq<char>,
    current_dir: Seq<char>,
)
    ensures
        trimmed(cwd).len() > 0 && trimmed(cwd)[0] == '/' ==> cwd_path(cwd, current_dir) == trimmed(
            cwd,
        ),
        !(trimmed(cwd).len() > 0 && trimmed(cwd)[0] == '/') && current_dir.len() > 0
            && current_dir.last() != '/' ==> cwd_path(cwd, current_dir) == current_dir + seq!['/']
            + trimmed(cwd),
{
    crate::path::law_paths_are_taken_from_a_directory(current_dir, trimmed(cwd));
}

} // verus!
