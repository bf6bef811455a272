//! Pieces of generated animation code: atomic guard expressions, the
//! restricted two-level disjunctive normal form used on transitions, and the
//! small emission objects (renderer lookup, parameter declaration, state
//! definition, transition).

use crate::text::{lemma_add_assoc, spec_dec, spec_value_text, usize_to_string, value_text};
use crate::values::NormalizedValue;
use crate::writer::{line_at, spec_spaces, CodeWriter, ScopeView};
use vstd::prelude::*;

verus! {

broadcast use lemma_add_assoc;

/// Emits a piece of generated animation code into a writer.
pub trait AacObject {
    /// What must hold of this piece before it can be written out.
    spec fn wf(&self) -> bool;

    fn write_into(self, w: &mut CodeWriter)
        requires
            self.wf(),
    ;
}

/// An atomic guard predicate over one parameter.
#[derive(Debug, Clone, PartialEq, Eq)]
pub enum Expr {
    IntEqual(String, usize),
    IntNotEqual(String, usize),
    IsTrue(String),
    IsFalse(String),
}

impl Expr {
    /// The rendered text of this predicate.
    pub open spec fn spec_text(&self) -> Seq<char> {
        match self {
            Expr::IntEqual(p, v) => p@ + ".IsEqualTo("@ + spec_dec(*v as nat) + ")"@,
            Expr::IntNotEqual(p, v) => p@ + ".IsNotEqualTo("@ + spec_dec(*v as nat) + ")"@,
            Expr::IsTrue(p) => p@ + ".IsTrue()"@,
            Expr::IsFalse(p) => p@ + ".IsFalse()"@,
        }
    }

    /// Renders this predicate.
    #[verifier::loop_isolation(false)]
    pub fn render(&self) -> (r: String)
        ensures
            r@ == self.spec_text(),
    {
        match self {
            Expr::IntEqual(p, v) => {
                let mut s = p.clone();
                s.append(".IsEqualTo(");
                let num = usize_to_string(*v);
                s.append(num.as_str());
                s.append(")");
                s
            },
            Expr::IntNotEqual(p, v) => {
                let mut s = p.clone();
                s.append(".IsNotEqualTo(");
                let num = usize_to_string(*v);
                s.append(num.as_str());
                s.append(")");
                s
            },
            Expr::IsTrue(p) => {
                let mut s = p.clone();
                s.append(".IsTrue()");
                s
            },
            Expr::IsFalse(p) => {
                let mut s = p.clone();
                s.append(".IsFalse()");
                s
            },
        }
    }
}

/// A guard condition in restricted disjunctive normal form: a disjunction
/// holds conjunctions (or, degenerately, bare terms); a conjunction holds
/// only terms. An empty conjunction or disjunction expresses no constraint
/// and is treated as invalid, so that a transition guarded by it is dropped.
pub enum Cond {
    Or(Vec<Cond>),
    And(Vec<Cond>),
    Term(Expr),
}

/// Whether a condition may stand as one conjunction of a disjunction: a
/// non-empty conjunction of atomic terms, or a bare term.
pub open spec fn spec_is_valid_and(c: Cond) -> bool {
    match c {
        Cond::And(terms) => terms@.len() > 0 && forall|i: int|
            0 <= i < terms@.len() ==> terms@[i] is Term,
        Cond::Term(_) => true,
        Cond::Or(_) => false,
    }
}

/// Whether a condition is a valid disjunction: non-empty, every member a
/// valid conjunction or a bare term.
pub open spec fn spec_is_valid_or(c: Cond) -> bool {
    match c {
        Cond::Or(members) => members@.len() > 0 && forall|i: int|
            0 <= i < members@.len() ==> spec_is_valid_and(#[trigger] members@[i]),
        _ => false,
    }
}

/// Whether a condition is in the accepted normal form.
pub open spec fn spec_is_valid(c: Cond) -> bool {
    match c {
        Cond::Or(_) => spec_is_valid_or(c),
        Cond::And(_) => spec_is_valid_and(c),
        Cond::Term(_) => true,
    }
}

/// The rendered text of the terms of one conjunction, from position `i` on:
/// the first term is introduced by `When`, every later one by `And`.
pub open spec fn spec_when_and_text(terms: Seq<Cond>, i: int) -> Seq<char>
    decreases terms.len() - i,
{
    if i < 0 || i >= terms.len() {
        Seq::empty()
    } else {
        let method = if i == 0 {
            ".When("@
        } else {
            ".And("@
        };
        method + terms[i]->Term_0.spec_text() + ")"@ + spec_when_and_text(terms, i + 1)
    }
}

/// The rendered text of one conjunction (or bare term) of a disjunction.
pub open spec fn spec_clause_text(c: Cond) -> Seq<char> {
    match c {
        Cond::Term(e) => ".When("@ + e.spec_text() + ")"@,
        Cond::And(terms) => spec_when_and_text(terms@, 0),
        Cond::Or(_) => Seq::empty(),
    }
}

/// The rendered text of the members of a disjunction from position `i` on:
/// every member after the first is introduced by an `Or` continuation.
pub open spec fn spec_or_members_text(members: Seq<Cond>, i: int) -> Seq<char>
    decreases members.len() - i,
{
    if i < 0 || i >= members.len() {
        Seq::empty()
    } else {
        let sep = if i == 0 {
            Seq::<char>::empty()
        } else {
            ".Or()"@
        };
        sep + spec_clause_text(members[i]) + spec_or_members_text(members, i + 1)
    }
}

/// The rendered text of a whole condition.
pub open spec fn spec_cond_text(c: Cond) -> Seq<char> {
    match c {
        Cond::Or(members) => spec_or_members_text(members@, 0),
        _ => spec_clause_text(c),
    }
}

impl Cond {
    /// Whether this condition is in the accepted normal form.
    pub fn is_valid(&self) -> (r: bool)
        ensures
            r == spec_is_valid(*self),
    {
        match self {
            Cond::Or(_) => self.is_valid_or(),
            Cond::And(_) => self.is_valid_and(),
            Cond::Term(_) => true,
        }
    }

    #[verifier::loop_isolation(false)]
    fn is_valid_and(&self) -> (r: bool)
        ensures
            r == spec_is_valid_and(*self),
    {
        match self {
            Cond::And(terms) => {
                if terms.len() == 0 {
                    return false;
                }
                let n = terms.len();
                let mut i: usize = 0;
                while i < n
                    invariant
                        i <= n,
                        n == terms@.len(),
                        forall|j: int| 0 <= j < i ==> terms@[j] is Term,
                    decreases n - i,
                {
                    match &terms[i] {
                        Cond::Term(_) => {},
                        Cond::And(_) => {
                            return false;
                        },
                        Cond::Or(_) => {
                            return false;
                        },
                    }
                    i = i + 1;
                }
                true
            },
            Cond::Term(_) => true,
            Cond::Or(_) => false,
        }
    }

    #[verifier::loop_isolation(false)]
    fn is_valid_or(&self) -> (r: bool)
        ensures
            r == spec_is_valid_or(*self),
    {
        match self {
            Cond::Or(members) => {
                if members.len() == 0 {
                    return false;
                }
                let n = members.len();
                let mut i: usize = 0;
                while i < n
                    invariant
                        i <= n,
                        n == members@.len(),
                        forall|j: int| 0 <= j < i ==> spec_is_valid_and(#[trigger] members@[j]),
                    decreases n - i,
                {
                    let member_ok = members[i].is_valid_and();
                    if !member_ok {
                        proof {
                            assert(!spec_is_valid_and(members@[i as int]));
                        }
                        return false;
                    }
                    i = i + 1;
                }
                true
            },
            _ => false,
        }
    }

    /// Renders one conjunction (or bare term).
    #[verifier::loop_isolation(false)]
    fn render_clause(&self) -> (r: String)
        requires
            spec_is_valid_and(*self),
        ensures
            r@ == spec_clause_text(*self),
    {
        match self {
            Cond::Term(e) => {
                let mut s = String::from_str(".When(");
                let t = e.render();
                s.append(t.as_str());
                s.append(")");
                s
            },
            Cond::And(terms) => {
                let n = terms.len();
                let mut s = String::new();
                let mut i: usize = 0;
                while i < n
                    invariant
                        i <= n,
                        n == terms@.len(),
                        forall|j: int| 0 <= j < n ==> terms@[j] is Term,
                        s@ + spec_when_and_text(terms@, i as int) == spec_when_and_text(
                            terms@,
                            0,
                        ),
                    decreases n - i,
                {
                    if i == 0 {
                        s.append(".When(");
                    } else {
                        s.append(".And(");
                    }
                    match &terms[i] {
                        Cond::Term(e) => {
                            let t = e.render();
                            s.append(t.as_str());
                        },
                        _ => {
                            unreached::<()>();
                        },
                    }
                    s.append(")");
                    i = i + 1;
                }
                s
            },
            Cond::Or(_) => unreached(),
        }
    }

    /// Renders a valid condition as the chain of guard-builder calls.
    #[verifier::loop_isolation(false)]
    pub fn render(&self) -> (r: String)
        requires
            spec_is_valid(*self),
        ensures
            r@ == spec_cond_text(*self),
    {
        match self {
            Cond::Or(members) => {
                let n = members.len();
                let mut s = String::new();
                let mut i: usize = 0;
                while i < n
                    invariant
                        i <= n,
                        n == members@.len(),
                        forall|j: int| 0 <= j < n ==> spec_is_valid_and(#[trigger] members@[j]),
                        s@ + spec_or_members_text(members@, i as int) == spec_or_members_text(
                            members@,
                            0,
                        ),
                    decreases n - i,
                {
                    if i > 0 {
                        s.append(".Or()");
                    }
                    let clause = members[i].render_clause();
                    s.append(clause.as_str());
                    i = i + 1;
                }
                s
            },
            _ => self.render_clause(),
        }
    }
}

/// `var renderer = ...`: fetches the skinned-mesh renderer of the referenced
/// object.
#[derive(Debug, Clone)]
pub struct RendererFetch {
    pub name: String,
}

/// The line body of a renderer fetch.
pub open spec fn spec_renderer_fetch_body(name: Seq<char>) -> Seq<char> {
    "var renderer = (SkinnedMeshRenderer) gameObject.transform.Find(\""@ + name
        + "\").GetComponent<SkinnedMeshRenderer>();"@
}

impl RendererFetch {
    /// Creates a fetch of the named object's renderer.
    pub fn new(name: String) -> (r: RendererFetch)
        ensures
            r.name == name,
    {
        RendererFetch { name }
    }
}

impl AacObject for RendererFetch {
    open spec fn wf(&self) -> bool {
        true
    }

    fn write_into(self, w: &mut CodeWriter)
        ensures
            final(w).text() == old(w).text() + line_at(
                old(w).ind(),
                spec_renderer_fetch_body(self.name@),
            ),
            final(w).same_shape(old(w)),
    {
        let mut s = String::from_str(
            "var renderer = (SkinnedMeshRenderer) gameObject.transform.Find(\"",
        );
        s.append(self.name.as_str());
        s.append("\").GetComponent<SkinnedMeshRenderer>();");
        w.write(s.as_str());
    }
}

/// `var parameter = ...`: declares the boolean or integer parameter a layer
/// is guarded by.
#[derive(Debug, Clone)]
pub enum ParameterDefinition {
    Bool(String),
    Integer(String),
}

/// The line body of a parameter declaration under the given variable name.
pub open spec fn spec_parameter_body(p: ParameterDefinition, var_name: Seq<char>) -> Seq<char> {
    match p {
        ParameterDefinition::Bool(name) => "var "@ + var_name + " = layer.BoolParameter(\""@
            + name@ + "\");"@,
        ParameterDefinition::Integer(name) => "var "@ + var_name + " = layer.IntParameter(\""@
            + name@ + "\");"@,
    }
}

impl ParameterDefinition {
    /// Writes the declaration with an explicit variable name.
    pub fn write_into_var(self, var_name: &str, w: &mut CodeWriter)
        ensures
            final(w).text() == old(w).text() + line_at(
                old(w).ind(),
                spec_parameter_body(self, var_name@),
            ),
            final(w).same_shape(old(w)),
    {
        let mut s = String::from_str("var ");
        s.append(var_name);
        match self {
            ParameterDefinition::Bool(name) => {
                s.append(" = layer.BoolParameter(\"");
                s.append(name.as_str());
            },
            ParameterDefinition::Integer(name) => {
                s.append(" = layer.IntParameter(\"");
                s.append(name.as_str());
            },
        }
        s.append("\");");
        w.write(s.as_str());
    }
}

impl AacObject for ParameterDefinition {
    open spec fn wf(&self) -> bool {
        true
    }

    fn write_into(self, w: &mut CodeWriter)
        ensures
            final(w).text() == old(w).text() + line_at(
                old(w).ind(),
                spec_parameter_body(self, "parameter"@),
            ),
            final(w).same_shape(old(w)),
    {
        self.write_into_var("parameter", w);
    }
}

/// `var state = ...`: declares one state with its animation clip.
#[derive(Debug, Clone)]
pub struct StateDefinition {
    pub state_var: String,
    pub state_name: String,
    pub blend_shapes: Option<Vec<(String, NormalizedValue)>>,
    pub renderer: String,
    pub right_of: Option<String>,
    pub indented: bool,
}

/// One `.BlendShape(...)` call per drive, from position `i` on, as one
/// unbroken fragment.
pub open spec fn spec_blend_fragment(
    renderer: Seq<char>,
    bs: Seq<(String, NormalizedValue)>,
    i: int,
) -> Seq<char>
    decreases bs.len() - i,
{
    if i < 0 || i >= bs.len() {
        Seq::empty()
    } else {
        ".BlendShape("@ + renderer + ", \""@ + bs[i].0@ + "\", "@ + spec_value_text(
            bs[i].1.spec_get() as nat,
        ) + "f)"@ + spec_blend_fragment(renderer, bs, i + 1)
    }
}

/// One `.BlendShape(...)` line per drive, from position `i` on, each at the
/// given indent.
pub open spec fn spec_blend_lines(
    ind: Seq<char>,
    renderer: Seq<char>,
    bs: Seq<(String, NormalizedValue)>,
    i: int,
) -> Seq<char>
    decreases bs.len() - i,
{
    if i < 0 || i >= bs.len() {
        Seq::empty()
    } else {
        line_at(
            ind,
            ".BlendShape("@ + renderer + ", \""@ + bs[i].0@ + "\", "@ + spec_value_text(
                bs[i].1.spec_get() as nat,
            ) + "f)"@,
        ) + spec_blend_lines(ind, renderer, bs, i + 1)
    }
}

/// The head of a state declaration: the variable, the state name, and the
/// optional canvas anchor.
pub open spec fn spec_state_head(sd: StateDefinition) -> Seq<char> {
    "var "@ + sd.state_var@ + " = layer.NewState(\""@ + sd.state_name@ + "\")"@ + match sd
        .right_of {
        Option::Some(ro) => ".RightOf("@ + ro@ + ")"@,
        Option::None => Seq::<char>::empty(),
    }
}

/// The blend-shape calls of a state declaration, as one fragment.
pub open spec fn spec_state_blend(sd: StateDefinition) -> Seq<char> {
    match sd.blend_shapes {
        Option::Some(bs) => spec_blend_fragment(sd.renderer@, bs@, 0),
        Option::None => Seq::<char>::empty(),
    }
}

/// The full text of a state declaration at the given indent: a single line,
/// or the multi-line form with the clip construction indented below it.
pub open spec fn spec_state_text(sd: StateDefinition, ind: Seq<char>, width: nat) -> Seq<char> {
    if sd.indented {
        line_at(ind, spec_state_head(sd) + ".WithAnimation("@) + line_at(
            ind + spec_spaces(width),
            "aac.NewClip()"@,
        ) + match sd.blend_shapes {
            Option::Some(bs) => spec_blend_lines(
                ind + spec_spaces(width) + spec_spaces(width),
                sd.renderer@,
                bs@,
                0,
            ),
            Option::None => Seq::<char>::empty(),
        } + line_at(ind, ");"@)
    } else {
        line_at(ind, spec_state_head(sd) + ".WithAnimation(aac.NewClip()"@ + spec_state_blend(sd) + ");"@)
    }
}

impl StateDefinition {
    /// Creates a state declaration with no animation drives.
    pub fn new(state_var: String, state_name: String) -> (r: StateDefinition)
        ensures
            r == (StateDefinition {
                state_var,
                state_name,
                blend_shapes: Option::<Vec<(String, NormalizedValue)>>::None,
                renderer: r.renderer,
                right_of: Option::<String>::None,
                indented: false,
            }),
            r.renderer@ == "renderer"@,
    {
        StateDefinition {
            state_var,
            state_name,
            blend_shapes: Option::None,
            renderer: String::from_str("renderer"),
            right_of: Option::None,
            indented: false,
        }
    }

    /// Anchors this state to the right of the named state.
    pub fn right_of(self, state_name: String) -> (r: StateDefinition)
        ensures
            r == (StateDefinition { right_of: Option::Some(state_name), ..self }),
    {
        StateDefinition { right_of: Option::Some(state_name), ..self }
    }

    /// Switches to the multi-line declaration form.
    pub fn indented(self) -> (r: StateDefinition)
        ensures
            r == (StateDefinition { indented: true, ..self }),
    {
        StateDefinition { indented: true, ..self }
    }

    /// Sets the animation drives of this state.
    pub fn blend_shapes(self, items: Vec<(String, NormalizedValue)>) -> (r: StateDefinition)
        ensures
            r == (StateDefinition { blend_shapes: Option::Some(items), ..self }),
    {
        StateDefinition { blend_shapes: Option::Some(items), ..self }
    }

    /// Builds the fragment of `.BlendShape(...)` calls.
    #[verifier::loop_isolation(false)]
    fn render_blend_fragment(renderer: &String, bs: &Vec<(String, NormalizedValue)>) -> (r: String)
        ensures
            r@ == spec_blend_fragment(renderer@, bs@, 0),
    {
        let n = bs.len();
        let mut s = String::new();
        let mut i: usize = 0;
        while i < n
            invariant
                i <= n,
                n == bs@.len(),
                s@ + spec_blend_fragment(renderer@, bs@, i as int) == spec_blend_fragment(
                    renderer@,
                    bs@,
                    0,
                ),
            decreases n - i,
        {
            s.append(".BlendShape(");
            s.append(renderer.as_str());
            s.append(", \"");
            s.append(bs[i].0.as_str());
            s.append("\", ");
            let v = value_text(&bs[i].1);
            s.append(v.as_str());
            s.append("f)");
            i = i + 1;
        }
        s
    }

    /// Builds the head of the declaration line.
    fn render_head(&self) -> (r: String)
        ensures
            r@ == spec_state_head(*self),
    {
        let mut s = String::from_str("var ");
        s.append(self.state_var.as_str());
        s.append(" = layer.NewState(\"");
        s.append(self.state_name.as_str());
        s.append("\")");
        match &self.right_of {
            Option::Some(ro) => {
                s.append(".RightOf(");
                s.append(ro.as_str());
                s.append(")");
            },
            Option::None => {},
        }
        s
    }
}

impl AacObject for StateDefinition {
    open spec fn wf(&self) -> bool {
        true
    }

    #[verifier::rlimit(100)]
    #[verifier::loop_isolation(false)]
    fn write_into(self, w: &mut CodeWriter)
        ensures
            final(w).text() == old(w).text() + spec_state_text(self, old(w).ind(), old(w).width()),
            final(w).same_shape(old(w)),
    {
        if self.indented {
            let mut head = self.render_head();
            head.append(".WithAnimation(");
            w.write(head.as_str());
            w.indent();
            w.write("aac.NewClip()");
            match &self.blend_shapes {
                Option::Some(bs) => {
                    w.indent();
                    let n = bs.len();
                    let mut i: usize = 0;
                    let ghost base = w.text();
                    let ghost ind2 = w.ind();
                    let ghost width0 = w.width();
                    let ghost stack0 = w.stack();
                    while i < n
                        invariant
                            i <= n,
                            n == bs@.len(),
                            w.ind() == ind2,
                            w.width() == width0,
                            w.stack() == stack0,
                            base + spec_blend_lines(ind2, self.renderer@, bs@, 0) == w.text()
                                + spec_blend_lines(ind2, self.renderer@, bs@, i as int),
                        decreases n - i,
                    {
                        let mut line = String::from_str(".BlendShape(");
                        line.append(self.renderer.as_str());
                        line.append(", \"");
                        line.append(bs[i].0.as_str());
                        line.append("\", ");
                        let v = value_text(&bs[i].1);
                        line.append(v.as_str());
                        line.append("f)");
                        w.write(line.as_str());
                        i = i + 1;
                    }
                    w.flush();
                    proof {
                        assert(w.stack() =~= old(w).stack().push(
                            ScopeView { term: Option::None, prev: old(w).ind() },
                        ));
                    }
                },
                Option::None => {},
            }
            w.flush();
            proof {
                assert(w.stack() =~= old(w).stack());
            }
            w.write(");");
        } else {
            let mut line = self.render_head();
            line.append(".WithAnimation(aac.NewClip()");
            match &self.blend_shapes {
                Option::Some(bs) => {
                    let frag = StateDefinition::render_blend_fragment(&self.renderer, bs);
                    line.append(frag.as_str());
                },
                Option::None => {},
            }
            line.append(");");
            w.write(line.as_str());
        }
    }
}

/// `state.TransitionsTo(...)` or `state.Exits()`: one guarded transition.
/// A transition with no valid condition is omitted from output entirely.
pub struct Transition {
    pub from: Option<String>,
    pub to: Option<String>,
    pub condition: Option<Cond>,
}

/// Whether a transition can be written out: it has a source state, and any
/// stored condition is valid.
pub open spec fn spec_transition_wf(t: Transition) -> bool {
    &&& t.from is Some
    &&& match t.condition {
        Option::Some(c) => spec_is_valid(c),
        Option::None => true,
    }
}

/// The text of a transition at the given indent: nothing when no condition
/// was accepted, else one line chaining the transition and its guards.
pub open spec fn spec_transition_text(t: Transition, ind: Seq<char>) -> Seq<char> {
    match t.condition {
        Option::None => Seq::<char>::empty(),
        Option::Some(c) => line_at(
            ind,
            (match t.to {
                Option::Some(to) => t.from->0@ + ".TransitionsTo("@ + to@ + ")"@,
                Option::None => t.from->0@ + ".Exits()"@,
            }) + spec_cond_text(c) + ";"@,
        ),
    }
}

impl Transition {
    /// Creates a transition between two named states, not yet guarded.
    pub fn new(from: String, to: String) -> (r: Transition)
        ensures
            r == (Transition {
                from: Option::Some(from),
                to: Option::Some(to),
                condition: Option::<Cond>::None,
            }),
    {
        Transition { from: Option::Some(from), to: Option::Some(to), condition: Option::None }
    }

    /// Creates an exit transition from a named state, not yet guarded.
    pub fn exits(from: String) -> (r: Transition)
        ensures
            r == (Transition {
                from: Option::Some(from),
                to: Option::<String>::None,
                condition: Option::<Cond>::None,
            }),
    {
        Transition { from: Option::Some(from), to: Option::None, condition: Option::None }
    }

    /// Guards the transition: the condition is accepted only if it is in the
    /// accepted normal form; otherwise the previous guard is kept.
    pub fn cond(self, condition: Cond) -> (r: Transition)
        ensures
            r.from == self.from,
            r.to == self.to,
            r.condition == if spec_is_valid(condition) {
                Option::Some(condition)
            } else {
                self.condition
            },
    {
        if condition.is_valid() {
            Transition { condition: Option::Some(condition), ..self }
        } else {
            self
        }
    }
}

impl AacObject for Transition {
    open spec fn wf(&self) -> bool {
        spec_transition_wf(*self)
    }

    fn write_into(self, w: &mut CodeWriter)
        ensures
            final(w).text() == old(w).text() + spec_transition_text(self, old(w).ind()),
            final(w).same_shape(old(w)),
    {
        let condition = match self.condition {
            Option::Some(c) => c,
            Option::None => {
                return ;
            },
        };
        let mut line = match self.from {
            Option::Some(f) => f,
            Option::None => unreached(),
        };
        match &self.to {
            Option::Some(t) => {
                line.append(".TransitionsTo(");
                line.append(t.as_str());
                line.append(")");
            },
            Option::None => {
                line.append(".Exits()");
            },
        }
        let c = condition.render();
        line.append(c.as_str());
        line.append(";");
        w.write(line.as_str());
    }
}


/// A state declaration on one line, written from its parts: used by the
/// layer specifications, which know the parts rather than the whole
/// `StateDefinition` value.
pub open spec fn spec_state_line(
    sv: Seq<char>,
    sn: Seq<char>,
    right_of: Option<Seq<char>>,
    blend: Seq<char>,
    ind: Seq<char>,
) -> Seq<char> {
    line_at(
        ind,
        "var "@ + sv + " = layer.NewState(\""@ + sn + "\")"@ + (match right_of {
            Option::Some(ro) => ".RightOf("@ + ro + ")"@,
            Option::None => Seq::<char>::empty(),
        }) + ".WithAnimation(aac.NewClip()"@ + blend + ");"@,
    )
}

/// The single-line state text equals the part-wise form.
pub proof fn lemma_state_text_flat(sd: StateDefinition, ind: Seq<char>, w: nat)
    requires
        !sd.indented,
    ensures
        spec_state_text(sd, ind, w) == spec_state_line(
            sd.state_var@,
            sd.state_name@,
            match sd.right_of {
                Option::Some(ro) => Option::Some(ro@),
                Option::None => Option::None,
            },
            spec_state_blend(sd),
            ind,
        ),
{
    if sd.right_of is Some {
    } else {
    }
}

/// A multi-line state declaration, written from its parts: the head line,
/// the clip construction one unit deeper, one drive line per shape two units
/// deeper, and the closing line.
pub open spec fn spec_state_lines_indented(
    sv: Seq<char>,
    sn: Seq<char>,
    right_of: Option<Seq<char>>,
    renderer: Seq<char>,
    bs: Seq<(String, NormalizedValue)>,
    ind: Seq<char>,
    w: nat,
) -> Seq<char> {
    line_at(
        ind,
        "var "@ + sv + " = layer.NewState(\""@ + sn + "\")"@ + (match right_of {
            Option::Some(ro) => ".RightOf("@ + ro + ")"@,
            Option::None => Seq::<char>::empty(),
        }) + ".WithAnimation("@,
    ) + line_at(ind + spec_spaces(w), "aac.NewClip()"@) + spec_blend_lines(
        ind + spec_spaces(w) + spec_spaces(w),
        renderer,
        bs,
        0,
    ) + line_at(ind, ");"@)
}

/// The multi-line state text equals the part-wise form.
pub proof fn lemma_state_text_indented(sd: StateDefinition, ind: Seq<char>, w: nat)
    requires
        sd.indented,
        sd.blend_shapes is Some,
    ensures
        spec_state_text(sd, ind, w) == spec_state_lines_indented(
            sd.state_var@,
            sd.state_name@,
            match sd.right_of {
                Option::Some(ro) => Option::Some(ro@),
                Option::None => Option::None,
            },
            sd.renderer@,
            sd.blend_shapes->0@,
            ind,
            w,
        ),
{
    if sd.right_of is Some {
    } else {
    }
}


/// An empty conjunction or disjunction is invalid, so it expresses no
/// constraint: a transition guarded only by it keeps no condition and is
/// omitted from output entirely.
pub proof fn lemma_empty_condition_dropped(c: Cond, from: String, to: String, ind: Seq<char>)
    requires
        (c is Or && c->Or_0@.len() == 0) || (c is And && c->And_0@.len() == 0),
    ensures
        !spec_is_valid(c),
        spec_transition_text(
            Transition { from: Option::Some(from), to: Option::Some(to), condition: Option::None },
            ind,
        ) == Seq::<char>::empty(),
{
}

} // verus!
