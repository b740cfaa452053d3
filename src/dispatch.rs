use crate::nix_expr::{
    assemble_full, flake_views, full_expr, opt_view, string_views, ExprContext, NamedFlake,
};
use crate::string_truncation::{truncate_string, truncated};
use vstd::prelude::*;
use vstd::string::StrSliceExecFns;

verus! {

/// What the user asked for on the command line.
pub enum Invocation {
    /// A shell from a `shell.nix` file at the given path.
    Shell(String),
    /// The development shell of the flake in the given directory.
    Flake(String),
    /// A shell for a derivation file and the arguments to call it with.
    Derivation(String, String),
    /// A shell with packages given as expressions, with named flakes in scope.
    Exprs(Vec<NamedFlake>, Vec<String>),
    /// The same, from positional arguments that named no subcommand.
    ExprsExternal(Vec<String>),
}

/// A program to run and its arguments.
pub struct ChildCommand {
    pub program: String,
    pub args: Vec<String>,
}

/// The arguments that make the package manager open a shell on `expr`.
pub open spec fn shell_args(expr: Seq<char>) -> Seq<Seq<char>> {
    seq!["shell"@, "--impure"@, "--expr"@, expr]
}

/// Whether every expression has a label.
pub open spec fn all_labelled(exprs: Seq<Seq<char>>) -> bool {
    forall|j: int| 0 <= j < exprs.len() ==> (#[trigger] truncated(exprs[j])) is Some
}

/// `env` extended with the label of each expression.
pub open spec fn labels_pushed(
    before: Seq<String>,
    after: Seq<String>,
    exprs: Seq<Seq<char>>,
) -> bool {
    &&& after.len() == before.len() + exprs.len()
    &&& forall|j: int| 0 <= j < before.len() ==> after[j] == before[j]
    &&& forall|j: int|
        0 <= j < exprs.len() ==> truncated(exprs[j]) == Some((#[trigger] after[before.len() + j])@)
}

/// The expression that calls a derivation file with its arguments.
pub open spec fn call_package(deriv: Seq<char>, args: Seq<char>) -> Seq<char> {
    "callPackage "@ + deriv + " "@ + args
}

/// A command that opens a shell on the packages `exprs`, with the flakes
/// `extra_flakes` bound by name; the label of each expression is appended
/// to `env`. `None` when some expression has no label.
pub fn make_exprs_command(
    exprs: &Vec<String>,
    extra_flakes: &Vec<NamedFlake>,
    ctx: &ExprContext,
    env: &mut Vec<String>,
) -> (r: Option<ChildCommand>)
    ensures
        r is Some <==> all_labelled(string_views(exprs@)),
        r matches Some(c) ==> {
            &&& c.program@ == "nix"@
            &&& string_views(c.args@) == shell_args(
                full_expr(
                    flake_views(extra_flakes@),
                    string_views(exprs@),
                    opt_view(ctx.system_flake),
                    ctx.system@,
                ),
            )
            &&& labels_pushed(old(env)@, final(env)@, string_views(exprs@))
        },
{
    let ghost ev = string_views(exprs@);
    let mut k: usize = 0;
    while k < exprs.len()
        invariant
            k <= exprs@.len(),
            ev == string_views(exprs@),
            forall|j: int| 0 <= j < k ==> (#[trigger] truncated(ev[j])) is Some,
            labels_pushed(old(env)@, env@, ev.take(k as int)),
        decreases exprs@.len() - k,
    {
        assert(ev[k as int] == exprs@[k as int]@);
        match truncate_string(exprs[k].as_str()) {
            Some(label) => {
                env.push(label);
            },
            None => {
                return None;
            },
        }
        assert(ev.take(k + 1).take(k as int) =~= ev.take(k as int));
        k += 1;
    }
    assert(ev.take(exprs@.len() as int) =~= ev);
    let expr = assemble_full(extra_flakes, exprs, ctx);
    let args = shell_command_args(expr);
    Some(ChildCommand { program: String::from_str("nix"), args })
}

/// `shell --impure --expr <expr>`.
fn shell_command_args(expr: String) -> (r: Vec<String>)
    ensures
        string_views(r@) == shell_args(expr@),
{
    let mut args: Vec<String> = Vec::new();
    args.push(String::from_str("shell"));
    args.push(String::from_str("--impure"));
    args.push(String::from_str("--expr"));
    args.push(expr);
    assert(string_views(args@) =~= shell_args(expr@));
    args
}

/// The command for an invocation, with the label of what it opens appended
/// to `env`. `path_label` is the label of the path that the shell and flake
/// modes open; the other modes label their own input. `None` when an input
/// has no label.
pub fn make_command(
    inv: &Invocation,
    ctx: &ExprContext,
    path_label: &String,
    env: &mut Vec<String>,
) -> (r: Option<ChildCommand>)
    ensures
        match inv {
            Invocation::Shell(path) => r matches Some(c) && c.program@ == "nix-shell"@
                && string_views(c.args@) == seq![path@] && final(env)@ == old(env)@.push(
                *path_label,
            ),
            Invocation::Flake(path) => r matches Some(c) && c.program@ == "nix"@ && string_views(
                c.args@,
            ) == seq!["develop"@, path@] && final(env)@ == old(env)@.push(*path_label),
            Invocation::Derivation(deriv, args) => {
                &&& r is Some <==> truncated(deriv@) is Some
                &&& r matches Some(c) ==> {
                    &&& c.program@ == "nix"@
                    &&& string_views(c.args@) == shell_args(
                        full_expr(
                            Seq::empty(),
                            seq![call_package(deriv@, args@)],
                            opt_view(ctx.system_flake),
                            ctx.system@,
                        ),
                    )
                    &&& labels_pushed(old(env)@, final(env)@, seq![deriv@])
                }
            },
            Invocation::Exprs(flakes, exprs) => {
                &&& r is Some <==> all_labelled(string_views(exprs@))
                &&& r matches Some(c) ==> {
                    &&& c.program@ == "nix"@
                    &&& string_views(c.args@) == shell_args(
                        full_expr(
                            flake_views(flakes@),
                            string_views(exprs@),
                            opt_view(ctx.system_flake),
                            ctx.system@,
                        ),
                    )
                    &&& labels_pushed(old(env)@, final(env)@, string_views(exprs@))
                }
            },
            Invocation::ExprsExternal(exprs) => {
                &&& r is Some <==> all_labelled(string_views(exprs@))
                &&& r matches Some(c) ==> {
                    &&& c.program@ == "nix"@
                    &&& string_views(c.args@) == shell_args(
                        full_expr(
                            Seq::empty(),
                            string_views(exprs@),
                            opt_view(ctx.system_flake),
                            ctx.system@,
                        ),
                    )
                    &&& labels_pushed(old(env)@, final(env)@, string_views(exprs@))
                }
            },
        },
{
    match inv {
        Invocation::Shell(path) => {
            env.push(path_label.clone());
            let mut args: Vec<String> = Vec::new();
            args.push(path.clone());
            assert(string_views(args@) =~= seq![path@]);
            Some(ChildCommand { program: String::from_str("nix-shell"), args })
        },
        Invocation::Flake(path) => {
            env.push(path_label.clone());
            let mut args: Vec<String> = Vec::new();
            args.push(String::from_str("develop"));
            args.push(path.clone());
            assert(string_views(args@) =~= seq!["develop"@, path@]);
            Some(ChildCommand { program: String::from_str("nix"), args })
        },
        Invocation::Derivation(deriv, args) => {
            let mut call = String::from_str("callPackage ");
            call.append(deriv.as_str());
            call.append(" ");
            call.append(args.as_str());
            let mut exprs: Vec<String> = Vec::new();
            exprs.push(call);
            let no_flakes: Vec<NamedFlake> = Vec::new();
            assert(string_views(exprs@) =~= seq![call_package(deriv@, args@)]);
            assert(flake_views(no_flakes@) =~= Seq::empty());
            let ghost before = env@;
            match truncate_string(deriv.as_str()) {
                Some(label) => {
                    env.push(label);
                },
                None => {
                    return None;
                },
            }
            assert(labels_pushed(before, env@, seq![deriv@]));
            let expr = assemble_full(&no_flakes, &exprs, ctx);
            let cmd_args = shell_command_args(expr);
            Some(ChildCommand { program: String::from_str("nix"), args: cmd_args })
        },
        Invocation::Exprs(flakes, exprs) => make_exprs_command(exprs, flakes, ctx, env),
        Invocation::ExprsExternal(exprs) => {
            let no_flakes: Vec<NamedFlake> = Vec::new();
            assert(flake_views(no_flakes@) =~= Seq::empty());
            make_exprs_command(exprs, &no_flakes, ctx, env)
        },
    }
}

/// The labels joined with `+`, the first `k` of them.
pub open spec fn joined(labels: Seq<Seq<char>>, k: int) -> Seq<char>
    decreases k,
{
    if k <= 0 {
        Seq::empty()
    } else if k == 1 {
        labels[0]
    } else {
        joined(labels, k - 1) + "+"@ + labels[k - 1]
    }
}

/// The breadcrumb handed to the child: the labels joined with `+`, after the
/// breadcrumb of the parent and a space when there is one.
pub open spec fn breadcrumb(previous: Option<Seq<char>>, labels: Seq<Seq<char>>) -> Seq<char> {
    match previous {
        Some(p) => p + " "@ + joined(labels, labels.len() as int),
        None => joined(labels, labels.len() as int),
    }
}

/// The labels joined with `+`.
pub fn join_labels(labels: &Vec<String>) -> (r: String)
    ensures
        r@ == joined(string_views(labels@), labels@.len() as int),
{
    let ghost lv = string_views(labels@);
    let mut r = String::new();
    let mut k: usize = 0;
    while k < labels.len()
        invariant
            k <= labels@.len(),
            lv == string_views(labels@),
            r@ == joined(lv, k as int),
        decreases labels@.len() - k,
    {
        assert(lv[k as int] == labels@[k as int]@);
        if k > 0 {
            r.append("+");
        }
        r.append(labels[k].as_str());
        assert(r@ =~= joined(lv, k + 1));
        k += 1;
    }
    r
}

/// The breadcrumb for the child process, from the parent's (if any) and the
/// labels of this invocation.
pub fn descriptions(previous: &Option<String>, labels: &Vec<String>) -> (r: String)
    ensures
        r@ == breadcrumb(opt_view(*previous), string_views(labels@)),
{
    let new = join_labels(labels);
    match previous {
        Some(p) => {
            let mut r = p.clone();
            r.append(" ");
            r.append(new.as_str());
            r
        },
        None => new,
    }
}

/// Splits `name=path` at its first `=`; `None` when there is no `=`.
pub fn split_flake_pair(s: &str) -> (r: Option<(String, String)>)
    ensures
        r is None <==> (forall|i: int| 0 <= i < s@.len() ==> s@[i] != '='),
        r matches Some(p) ==> exists|i: int|
            0 <= i < s@.len() && s@[i] == '=' && (forall|j: int| 0 <= j < i ==> s@[j] != '=')
                && p.0@ == s@.take(i) && p.1@ == s@.skip(i + 1),
{
    let n = s.unicode_len();
    let mut i: usize = 0;
    while i < n
        invariant
            i <= n == s@.len(),
            forall|j: int| 0 <= j < i ==> s@[j] != '=',
        decreases n - i,
    {
        if s.get_char(i) == '=' {
            let left = String::from_str(s.substring_char(0, i));
            let right = String::from_str(s.substring_char(i + 1, n));
            assert(left@ =~= s@.take(i as int));
            assert(right@ =~= s@.skip(i + 1));
            return Some((left, right));
        }
        i += 1;
    }
    None
}

} // verus!
