use vstd::prelude::*;
use vstd::string::StrSliceExecFns;

verus! {

/// A named flake given with `--flake name=path`; the path is canonical.
pub struct NamedFlake {
    pub name: String,
    pub path: String,
}

/// What the generated expressions depend on besides the user's input.
pub struct ExprContext {
    /// The system-level flake to take packages from, if one is configured.
    pub system_flake: Option<String>,
    /// The target system, such as `x86_64-linux`.
    pub system: String,
}

/// How one character is written inside a Nix string literal.
pub open spec fn escaped_char(c: char) -> Seq<char> {
    if c == '"' {
        seq!['\\', '"']
    } else if c == '\\' {
        seq!['\\', '\\']
    } else if c == '$' {
        seq!['\\', '$']
    } else if c == '\n' {
        seq!['\\', 'n']
    } else if c == '\r' {
        seq!['\\', 'r']
    } else if c == '\t' {
        seq!['\\', 't']
    } else {
        seq![c]
    }
}

/// The first `k` characters of `s`, escaped.
pub open spec fn escaped_first(s: Seq<char>, k: int) -> Seq<char>
    decreases k,
{
    if k <= 0 {
        Seq::empty()
    } else {
        escaped_first(s, k - 1) + escaped_char(s[k - 1])
    }
}

/// `s` as a Nix string literal.
pub open spec fn quoted(s: Seq<char>) -> Seq<char> {
    seq!['"'] + escaped_first(s, s.len() as int) + seq!['"']
}

/// The binding of one named flake.
pub open spec fn flake_binding(name: Seq<char>, path: Seq<char>) -> Seq<char> {
    "  "@ + name + " = builtins.getFlake "@ + quoted(path) + ";\n"@
}

/// The bindings of the first `k` named flakes, in order.
pub open spec fn flake_bindings(flakes: Seq<(Seq<char>, Seq<char>)>, k: int) -> Seq<char>
    decreases k,
{
    if k <= 0 {
        Seq::empty()
    } else {
        flake_bindings(flakes, k - 1) + flake_binding(flakes[k - 1].0, flakes[k - 1].1)
    }
}

/// The bindings that give the default package scope.
pub open spec fn base_bindings(system_flake: Option<Seq<char>>, system: Seq<char>) -> Seq<char> {
    match system_flake {
        Some(f) => "  systemFlake = builtins.getFlake "@ + quoted(f) + ";\n"@,
        None => "  nixpkgs = builtins.getFlake \"nixpkgs\";\n"@
            + "  pkgs = import nixpkgs { system = "@ + quoted(system) + "; };\n"@,
    }
}

/// The single entry of the `with` list.
pub open spec fn scope(system_flake: Option<Seq<char>>, system: Seq<char>) -> Seq<char> {
    match system_flake {
        Some(f) => "systemFlake.nix-shell-wrapper-pkgs."@ + quoted(system) + ".default"@,
        None => "pkgs"@,
    }
}

/// The text after the bindings: it closes the `let` and opens the list.
pub open spec fn list_opening(system_flake: Option<Seq<char>>, system: Seq<char>) -> Seq<char> {
    "in\nwith "@ + scope(system_flake, system) + "; ["@
}

/// The prefix of a generated expression.
pub open spec fn prefix(
    flakes: Seq<(Seq<char>, Seq<char>)>,
    system_flake: Option<Seq<char>>,
    system: Seq<char>,
) -> Seq<char> {
    "let\n"@ + base_bindings(system_flake, system) + flake_bindings(flakes, flakes.len() as int)
        + list_opening(system_flake, system)
}

/// The first `k` user expressions, each in parentheses and followed by a space.
pub open spec fn list_items(exprs: Seq<Seq<char>>, k: int) -> Seq<char>
    decreases k,
{
    if k <= 0 {
        Seq::empty()
    } else {
        list_items(exprs, k - 1) + "("@ + exprs[k - 1] + ") "@
    }
}

/// A complete generated expression.
pub open spec fn full_expr(
    flakes: Seq<(Seq<char>, Seq<char>)>,
    exprs: Seq<Seq<char>>,
    system_flake: Option<Seq<char>>,
    system: Seq<char>,
) -> Seq<char> {
    prefix(flakes, system_flake, system) + list_items(exprs, exprs.len() as int) + "]"@
}

/// The view of a named flake.
pub open spec fn flake_view(f: NamedFlake) -> (Seq<char>, Seq<char>) {
    (f.name@, f.path@)
}

/// The views of named flakes.
pub open spec fn flake_views(v: Seq<NamedFlake>) -> Seq<(Seq<char>, Seq<char>)> {
    v.map_values(|f: NamedFlake| flake_view(f))
}

/// The views of strings.
pub open spec fn string_views(v: Seq<String>) -> Seq<Seq<char>> {
    v.map_values(|s: String| s@)
}

/// The view of an optional string.
pub open spec fn opt_view(o: Option<String>) -> Option<Seq<char>> {
    match o {
        Some(s) => Some(s@),
        None => None,
    }
}

/// Appends `s` to `out` as a Nix string literal.
fn push_quoted(out: &mut String, s: &str)
    ensures
        final(out)@ == old(out)@ + quoted(s@),
{
    proof {
        reveal_strlit("\"");
        reveal_strlit("\\\"");
        reveal_strlit("\\\\");
        reveal_strlit("\\$");
        reveal_strlit("\\n");
        reveal_strlit("\\r");
        reveal_strlit("\\t");
    }
    let ghost start = out@;
    out.append("\"");
    let n = s.unicode_len();
    let mut i: usize = 0;
    while i < n
        invariant
            i <= n == s@.len(),
            out@ == start + seq!['"'] + escaped_first(s@, i as int),
        decreases n - i,
    {
        let c = s.get_char(i);
        proof {
            reveal_strlit("\\\"");
            reveal_strlit("\\\\");
            reveal_strlit("\\$");
            reveal_strlit("\\n");
            reveal_strlit("\\r");
            reveal_strlit("\\t");
        }
        assert(escaped_first(s@, i + 1) == escaped_first(s@, i as int) + escaped_char(c));
        if c == '"' {
            out.append("\\\"");
        } else if c == '\\' {
            out.append("\\\\");
        } else if c == '$' {
            out.append("\\$");
        } else if c == '\n' {
            out.append("\\n");
        } else if c == '\r' {
            out.append("\\r");
        } else if c == '\t' {
            out.append("\\t");
        } else {
            out.append(s.substring_char(i, i + 1));
        }
        assert(out@ =~= start + seq!['"'] + escaped_first(s@, i + 1));
        i += 1;
    }
    out.append("\"");
    assert(out@ =~= start + quoted(s@));
}

/// The prefix of a generated expression: a `let` that binds the default
/// package scope and each named flake, then a `with` over the default scope
/// alone, then the opening bracket of the package list.
pub fn expr_prefix(extra_flakes: &Vec<NamedFlake>, ctx: &ExprContext) -> (r: String)
    ensures
        r@ == prefix(flake_views(extra_flakes@), opt_view(ctx.system_flake), ctx.system@),
{
    let ghost fv = flake_views(extra_flakes@);
    let ghost sf = opt_view(ctx.system_flake);
    let mut e = String::new();
    e.append("let\n");
    match &ctx.system_flake {
        Some(f) => {
            e.append("  systemFlake = builtins.getFlake ");
            push_quoted(&mut e, f.as_str());
            e.append(";\n");
        },
        None => {
            e.append("  nixpkgs = builtins.getFlake \"nixpkgs\";\n");
            e.append("  pkgs = import nixpkgs { system = ");
            push_quoted(&mut e, ctx.system.as_str());
            e.append("; };\n");
        },
    }
    assert(e@ =~= "let\n"@ + base_bindings(sf, ctx.system@) + flake_bindings(fv, 0));
    let mut k: usize = 0;
    while k < extra_flakes.len()
        invariant
            k <= extra_flakes@.len(),
            fv == flake_views(extra_flakes@),
            e@ == "let\n"@ + base_bindings(sf, ctx.system@) + flake_bindings(fv, k as int),
        decreases extra_flakes@.len() - k,
    {
        let f = &extra_flakes[k];
        let ghost before = e@;
        e.append("  ");
        e.append(f.name.as_str());
        e.append(" = builtins.getFlake ");
        push_quoted(&mut e, f.path.as_str());
        e.append(";\n");
        assert(fv[k as int] == flake_view(extra_flakes@[k as int]));
        assert(e@ =~= before + flake_binding(fv[k as int].0, fv[k as int].1));
        k += 1;
    }
    let ghost bound = e@;
    e.append("in\nwith ");
    match &ctx.system_flake {
        Some(_) => {
            e.append("systemFlake.nix-shell-wrapper-pkgs.");
            push_quoted(&mut e, ctx.system.as_str());
            e.append(".default");
        },
        None => {
            e.append("pkgs");
        },
    }
    e.append("; [");
    assert(e@ =~= bound + list_opening(sf, ctx.system@));
    e
}

/// A complete expression: the prefix for `extra_flakes`, then each of
/// `exprs` verbatim in parentheses, then the closing bracket.
pub fn assemble_full(extra_flakes: &Vec<NamedFlake>, exprs: &Vec<String>, ctx: &ExprContext) -> (r:
    String)
    ensures
        r@ == full_expr(
            flake_views(extra_flakes@),
            string_views(exprs@),
            opt_view(ctx.system_flake),
            ctx.system@,
        ),
{
    let ghost ev = string_views(exprs@);
    let ghost pre = prefix(flake_views(extra_flakes@), opt_view(ctx.system_flake), ctx.system@);
    let mut e = expr_prefix(extra_flakes, ctx);
    assert(e@ =~= pre + list_items(ev, 0));
    let mut k: usize = 0;
    while k < exprs.len()
        invariant
            k <= exprs@.len(),
            ev == string_views(exprs@),
            e@ == pre + list_items(ev, k as int),
        decreases exprs@.len() - k,
    {
        let ghost before = e@;
        e.append("(");
        e.append(exprs[k].as_str());
        e.append(") ");
        assert(ev[k as int] == exprs@[k as int]@);
        assert(e@ =~= before + "("@ + ev[k as int] + ") "@);
        k += 1;
    }
    e.append("]");
    e
}

/// Whether `c` does not occur in `s`.
pub open spec fn lacks(s: Seq<char>, c: char) -> bool {
    forall|i: int| 0 <= i < s.len() ==> #[trigger] s[i] != c
}

proof fn lemma_lacks_concat(a: Seq<char>, b: Seq<char>, c: char)
    requires
        lacks(a, c),
        lacks(b, c),
    ensures
        lacks(a + b, c),
{
    assert forall|i: int| 0 <= i < (a + b).len() implies #[trigger] (a + b)[i] != c by {
        if i < a.len() {
            assert((a + b)[i] == a[i]);
        } else {
            assert((a + b)[i] == b[i - a.len()]);
        }
    }
}

proof fn lemma_quoted_lacks_bracket(s: Seq<char>, k: int)
    requires
        lacks(s, '['),
        0 <= k <= s.len(),
    ensures
        lacks(escaped_first(s, k), '['),
        k == s.len() ==> lacks(quoted(s), '['),
    decreases k,
{
    if k > 0 {
        lemma_quoted_lacks_bracket(s, k - 1);
        lemma_lacks_concat(escaped_first(s, k - 1), escaped_char(s[k - 1]), '[');
    }
    if k == s.len() {
        lemma_lacks_concat(seq!['"'], escaped_first(s, k), '[');
        lemma_lacks_concat(seq!['"'] + escaped_first(s, k), seq!['"'], '[');
    }
}

proof fn lemma_bindings_lack_bracket(flakes: Seq<(Seq<char>, Seq<char>)>, k: int)
    requires
        0 <= k <= flakes.len(),
        forall|j: int|
            0 <= j < flakes.len() ==> lacks((#[trigger] flakes[j]).0, '[') && lacks(
                flakes[j].1,
                '[',
            ),
    ensures
        lacks(flake_bindings(flakes, k), '['),
    decreases k,
{
    if k > 0 {
        let f = flakes[k - 1];
        lemma_bindings_lack_bracket(flakes, k - 1);
        lemma_quoted_lacks_bracket(f.1, f.1.len() as int);
        reveal_strlit("  ");
        reveal_strlit(" = builtins.getFlake ");
        reveal_strlit(";\n");
        lemma_lacks_concat("  "@, f.0, '[');
        lemma_lacks_concat("  "@ + f.0, " = builtins.getFlake "@, '[');
        lemma_lacks_concat("  "@ + f.0 + " = builtins.getFlake "@, quoted(f.1), '[');
        lemma_lacks_concat("  "@ + f.0 + " = builtins.getFlake "@ + quoted(f.1), ";\n"@, '[');
        lemma_lacks_concat(flake_bindings(flakes, k - 1), flake_binding(f.0, f.1), '[');
    }
}

proof fn lemma_items_lack_bracket(exprs: Seq<Seq<char>>, k: int)
    requires
        0 <= k <= exprs.len(),
        forall|j: int| 0 <= j < exprs.len() ==> lacks(#[trigger] exprs[j], '['),
    ensures
        lacks(list_items(exprs, k), '['),
    decreases k,
{
    if k > 0 {
        lemma_items_lack_bracket(exprs, k - 1);
        reveal_strlit("(");
        reveal_strlit(") ");
        lemma_lacks_concat(list_items(exprs, k - 1), "("@, '[');
        lemma_lacks_concat(list_items(exprs, k - 1) + "("@, exprs[k - 1], '[');
        lemma_lacks_concat(list_items(exprs, k - 1) + "("@ + exprs[k - 1], ") "@, '[');
    }
}

/// A generated expression ends with `]` and holds exactly one `[`, the one
/// that opens its package list, when none of its inputs holds a `[`.
pub proof fn lemma_one_open_bracket(
    flakes: Seq<(Seq<char>, Seq<char>)>,
    exprs: Seq<Seq<char>>,
    system_flake: Option<Seq<char>>,
    system: Seq<char>,
)
    requires
        forall|j: int|
            0 <= j < flakes.len() ==> lacks((#[trigger] flakes[j]).0, '[') && lacks(
                flakes[j].1,
                '[',
            ),
        forall|j: int| 0 <= j < exprs.len() ==> lacks(#[trigger] exprs[j], '['),
        system_flake matches Some(f) ==> lacks(f, '['),
        lacks(system, '['),
    ensures
        ({
            let e = full_expr(flakes, exprs, system_flake, system);
            let p = prefix(flakes, system_flake, system).len() - 1;
            &&& e.last() == ']'
            &&& 0 <= p < e.len() && e[p] == '['
            &&& forall|j: int| 0 <= j < e.len() && j != p ==> #[trigger] e[j] != '['
        }),
{
    reveal_strlit("let\n");
    reveal_strlit("  systemFlake = builtins.getFlake ");
    reveal_strlit(";\n");
    reveal_strlit("  nixpkgs = builtins.getFlake \"nixpkgs\";\n");
    reveal_strlit("  pkgs = import nixpkgs { system = ");
    reveal_strlit("; };\n");
    reveal_strlit("in\nwith ");
    reveal_strlit("systemFlake.nix-shell-wrapper-pkgs.");
    reveal_strlit(".default");
    reveal_strlit("pkgs");
    reveal_strlit("; [");
    reveal_strlit("]");
    lemma_quoted_lacks_bracket(system, system.len() as int);
    let base = base_bindings(system_flake, system);
    let sc = scope(system_flake, system);
    match system_flake {
        Some(f) => {
            lemma_quoted_lacks_bracket(f, f.len() as int);
            lemma_lacks_concat("  systemFlake = builtins.getFlake "@, quoted(f), '[');
            lemma_lacks_concat("  systemFlake = builtins.getFlake "@ + quoted(f), ";\n"@, '[');
            lemma_lacks_concat("systemFlake.nix-shell-wrapper-pkgs."@, quoted(system), '[');
            lemma_lacks_concat(
                "systemFlake.nix-shell-wrapper-pkgs."@ + quoted(system),
                ".default"@,
                '[',
            );
        },
        None => {
            let a = "  nixpkgs = builtins.getFlake \"nixpkgs\";\n"@;
            let b = "  pkgs = import nixpkgs { system = "@;
            lemma_lacks_concat(a, b, '[');
            lemma_lacks_concat(a + b, quoted(system), '[');
            lemma_lacks_concat(a + b + quoted(system), "; };\n"@, '[');
        },
    }
    assert(lacks(base, '['));
    assert(lacks(sc, '['));
    lemma_bindings_lack_bracket(flakes, flakes.len() as int);
    lemma_items_lack_bracket(exprs, exprs.len() as int);
    let fb = flake_bindings(flakes, flakes.len() as int);
    let items = list_items(exprs, exprs.len() as int);
    let x = "let\n"@ + base + fb + "in\nwith "@ + sc + seq![';', ' '];
    lemma_lacks_concat("let\n"@, base, '[');
    lemma_lacks_concat("let\n"@ + base, fb, '[');
    lemma_lacks_concat("let\n"@ + base + fb, "in\nwith "@, '[');
    lemma_lacks_concat("let\n"@ + base + fb + "in\nwith "@, sc, '[');
    lemma_lacks_concat("let\n"@ + base + fb + "in\nwith "@ + sc, seq![';', ' '], '[');
    lemma_lacks_concat(items, "]"@, '[');
    let e = full_expr(flakes, exprs, system_flake, system);
    assert(prefix(flakes, system_flake, system) =~= x + seq!['[']);
    assert(e =~= x + seq!['['] + (items + "]"@));
    assert forall|j: int| 0 <= j < e.len() && j != x.len() implies #[trigger] e[j] != '[' by {
        if j < x.len() {
            assert(e[j] == x[j]);
        } else {
            assert(e[j] == (items + "]"@)[j - x.len() - 1]);
        }
    }
}

proof fn lemma_bindings_prefix(
    flakes: Seq<(Seq<char>, Seq<char>)>,
    f: (Seq<char>, Seq<char>),
    k: int,
)
    requires
        0 <= k <= flakes.len(),
    ensures
        flake_bindings(flakes.push(f), k) == flake_bindings(flakes, k),
    decreases k,
{
    if k > 0 {
        lemma_bindings_prefix(flakes, f, k - 1);
        assert(flakes.push(f)[k - 1] == flakes[k - 1]);
    }
}

/// One more named flake adds exactly its binding, `name = builtins.getFlake
/// "<path>";`, after the others, and changes nothing else: in particular
/// not the `with` list.
pub proof fn lemma_flake_binding_added(
    flakes: Seq<(Seq<char>, Seq<char>)>,
    f: (Seq<char>, Seq<char>),
    exprs: Seq<Seq<char>>,
    system_flake: Option<Seq<char>>,
    system: Seq<char>,
)
    ensures
        ({
            let head = "let\n"@ + base_bindings(system_flake, system) + flake_bindings(
                flakes,
                flakes.len() as int,
            );
            let tail = list_opening(system_flake, system) + list_items(exprs, exprs.len() as int)
                + "]"@;
            &&& full_expr(flakes, exprs, system_flake, system) == head + tail
            &&& full_expr(flakes.push(f), exprs, system_flake, system) == head + flake_binding(
                f.0,
                f.1,
            ) + tail
        }),
{
    lemma_bindings_prefix(flakes, f, flakes.len() as int);
    let n = flakes.len() as int;
    assert(flakes.push(f)[n] == f);
    assert(flake_bindings(flakes.push(f), n + 1) == flake_bindings(flakes, n) + flake_binding(
        f.0,
        f.1,
    ));
    let head = "let\n"@ + base_bindings(system_flake, system) + flake_bindings(flakes, n);
    let tail = list_opening(system_flake, system) + list_items(exprs, exprs.len() as int) + "]"@;
    assert(full_expr(flakes, exprs, system_flake, system) =~= head + tail);
    assert(full_expr(flakes.push(f), exprs, system_flake, system) =~= head + flake_binding(f.0, f.1)
        + tail);
}

proof fn lemma_binding_at_upto(flakes: Seq<(Seq<char>, Seq<char>)>, k: int, m: int)
    requires
        0 <= k < m <= flakes.len(),
    ensures
        flake_bindings(flakes, m) == flake_bindings(flakes, k) + flake_binding(
            flakes[k].0,
            flakes[k].1,
        ) + flake_bindings(flakes.subrange(k + 1, m), m - k - 1),
    decreases m,
{
    let b = flake_binding(flakes[k].0, flakes[k].1);
    if m == k + 1 {
        assert(flake_bindings(flakes.subrange(k + 1, m), 0) == Seq::<char>::empty());
        assert(flake_bindings(flakes, m) =~= flake_bindings(flakes, k) + b + Seq::<char>::empty());
    } else {
        lemma_binding_at_upto(flakes, k, m - 1);
        let sub = flakes.subrange(k + 1, m - 1);
        let last = flakes[m - 1];
        assert(flakes.subrange(k + 1, m) =~= sub.push(last));
        lemma_bindings_prefix(sub, last, m - k - 2);
        assert(sub.push(last)[m - k - 2] == last);
        assert(flake_bindings(flakes, m) =~= flake_bindings(flakes, k) + b + flake_bindings(
            flakes.subrange(k + 1, m),
            m - k - 1,
        ));
    }
}

/// Each named flake contributes one binding to the generated expression, at
/// its own place: after the bindings of the flakes before it and before
/// those of the flakes after it, all ahead of the `with` list.
pub proof fn lemma_binding_at(
    flakes: Seq<(Seq<char>, Seq<char>)>,
    k: int,
    exprs: Seq<Seq<char>>,
    system_flake: Option<Seq<char>>,
    system: Seq<char>,
)
    requires
        0 <= k < flakes.len(),
    ensures
        full_expr(flakes, exprs, system_flake, system) == "let\n"@ + base_bindings(
            system_flake,
            system,
        ) + flake_bindings(flakes, k) + flake_binding(flakes[k].0, flakes[k].1) + flake_bindings(
            flakes.subrange(k + 1, flakes.len() as int),
            flakes.len() - k - 1,
        ) + list_opening(system_flake, system) + list_items(exprs, exprs.len() as int) + "]"@,
{
    lemma_binding_at_upto(flakes, k, flakes.len() as int);
    assert(full_expr(flakes, exprs, system_flake, system) =~= "let\n"@ + base_bindings(
        system_flake,
        system,
    ) + flake_bindings(flakes, k) + flake_binding(flakes[k].0, flakes[k].1) + flake_bindings(
        flakes.subrange(k + 1, flakes.len() as int),
        flakes.len() - k - 1,
    ) + list_opening(system_flake, system) + list_items(exprs, exprs.len() as int) + "]"@);
}

} // verus!
