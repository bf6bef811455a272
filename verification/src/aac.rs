//! The code generator: composes the descriptor model, the condition algebra,
//! and the code writer into the emitted program text, one animation layer
//! per prevention target, switch, and group.

use crate::aac_object::{
    lemma_state_text_flat, lemma_state_text_indented, spec_blend_fragment, spec_is_valid,
    spec_or_members_text, spec_state_line, spec_state_lines_indented, spec_state_text,
    spec_when_and_text, AacObject, Cond, Expr, ParameterDefinition, RendererFetch,
    StateDefinition, Transition,
};
use crate::descriptor::{spec_assigned_index, Descriptor, ShapeKeyDrive, ShapeKeyGroup, ShapeKeyOption, ShapeKeySwitch};
use crate::values::NormalizedValue;
use crate::text::{lemma_add_assoc, spec_dec, usize_to_string};
use crate::writer::{line_at, nl, spec_spaces, CodeWriter, ScopeView};
use vstd::prelude::*;

verus! {

/// A tracking target whose built-in animation a prevention layer can
/// suppress.
#[derive(Debug, Clone, Copy, PartialEq, Eq, Structural)]
pub enum AnimationTarget {
    Eyelids,
    JawAndMouth,
}

impl AnimationTarget {
    /// The runtime's name for this tracking element.
    pub open spec fn spec_tracking_element(self) -> Seq<char> {
        match self {
            AnimationTarget::Eyelids => "TrackingElement.Eyes"@,
            AnimationTarget::JawAndMouth => "TrackingElement.Mouth"@,
        }
    }

    /// The runtime's name for this tracking element.
    pub fn tracking_element(&self) -> (r: &'static str)
        ensures
            r@ == self.spec_tracking_element(),
    {
        match self {
            AnimationTarget::Eyelids => "TrackingElement.Eyes",
            AnimationTarget::JawAndMouth => "TrackingElement.Mouth",
        }
    }

    /// The short name used in layer names.
    pub open spec fn spec_displayed_name(self) -> Seq<char> {
        match self {
            AnimationTarget::Eyelids => "Eyes"@,
            AnimationTarget::JawAndMouth => "Mouth"@,
        }
    }

    /// The short name used in layer names.
    pub fn displayed_name(&self) -> (r: &'static str)
        ensures
            r@ == self.spec_displayed_name(),
    {
        match self {
            AnimationTarget::Eyelids => "Eyes",
            AnimationTarget::JawAndMouth => "Mouth",
        }
    }
}

/// `var layer = ...`: creates the supporting animation layer.
#[derive(Debug, Clone)]
pub struct LayerDefinition {
    pub name: String,
}

/// The line body of a layer definition.
pub open spec fn spec_layer_def_body(name: Seq<char>) -> Seq<char> {
    "var layer = aac.CreateSupportingFxLayer(\""@ + name + "\");"@
}

impl LayerDefinition {
    /// Creates a definition of the named layer.
    pub fn new(name: String) -> (r: LayerDefinition)
        ensures
            r.name == name,
    {
        LayerDefinition { name }
    }
}

impl AacObject for LayerDefinition {
    open spec fn wf(&self) -> bool {
        true
    }

    fn write_into(self, w: &mut CodeWriter)
        ensures
            final(w).text() == old(w).text() + line_at(
                old(w).ind(),
                spec_layer_def_body(self.name@),
            ),
            final(w).same_shape(old(w)),
    {
        let mut s = String::from_str("var layer = aac.CreateSupportingFxLayer(\"");
        s.append(self.name.as_str());
        s.append("\");");
        w.write(s.as_str());
    }
}

/// One tracking setting of a state.
#[derive(Debug, Clone, Copy, PartialEq, Eq, Structural)]
pub enum StateOption {
    Tracks(AnimationTarget),
    Animates(AnimationTarget),
}

/// The chained call of one tracking setting.
pub open spec fn spec_state_option_fragment(o: StateOption) -> Seq<char> {
    match o {
        StateOption::Tracks(t) => ".TrackingTracks("@ + t.spec_tracking_element() + ")"@,
        StateOption::Animates(t) => ".TrackingAnimates("@ + t.spec_tracking_element() + ")"@,
    }
}

/// The chained calls of the tracking settings from position `i` on.
pub open spec fn spec_state_option_fragments(opts: Seq<StateOption>, i: int) -> Seq<char>
    decreases opts.len() - i,
{
    if i < 0 || i >= opts.len() {
        Seq::empty()
    } else {
        spec_state_option_fragment(opts[i]) + spec_state_option_fragments(opts, i + 1)
    }
}

/// The text of a state's tracking settings: nothing when there are none,
/// else one line chaining them onto the state variable.
pub open spec fn spec_state_options_text(
    sv: Seq<char>,
    opts: Seq<StateOption>,
    ind: Seq<char>,
) -> Seq<char> {
    if opts.len() == 0 {
        Seq::empty()
    } else {
        line_at(ind, sv + spec_state_option_fragments(opts, 0) + ";"@)
    }
}

/// `state.Tracks()/Animates()...`: the tracking settings of one state.
#[derive(Debug, Clone)]
pub struct StateOptions {
    pub state_var: String,
    pub options: Vec<StateOption>,
}

impl StateOptions {
    /// Creates an empty setting list for the named state variable.
    pub fn new(state_var: String) -> (r: StateOptions)
        ensures
            r.state_var == state_var,
            r.options@ == Seq::<StateOption>::empty(),
    {
        StateOptions { state_var, options: Vec::new() }
    }

    /// Lets the state follow live tracking of the target.
    pub fn tracks(self, target: AnimationTarget) -> (r: StateOptions)
        ensures
            r.state_var == self.state_var,
            r.options@ == self.options@.push(StateOption::Tracks(target)),
    {
        let mut options = self.options;
        options.push(StateOption::Tracks(target));
        StateOptions { state_var: self.state_var, options }
    }

    /// Marks the target as animated (overridden) in the state.
    pub fn animates(self, target: AnimationTarget) -> (r: StateOptions)
        ensures
            r.state_var == self.state_var,
            r.options@ == self.options@.push(StateOption::Animates(target)),
    {
        let mut options = self.options;
        options.push(StateOption::Animates(target));
        StateOptions { state_var: self.state_var, options }
    }
}

impl AacObject for StateOptions {
    open spec fn wf(&self) -> bool {
        true
    }

    #[verifier::loop_isolation(false)]
    fn write_into(self, w: &mut CodeWriter)
        ensures
            final(w).text() == old(w).text() + spec_state_options_text(
                self.state_var@,
                self.options@,
                old(w).ind(),
            ),
            final(w).same_shape(old(w)),
    {
        if self.options.len() == 0 {
            return ;
        }
        let mut s = self.state_var;
        let n = self.options.len();
        let mut i: usize = 0;
        while i < n
            invariant
                i <= n,
                s@ + spec_state_option_fragments(self.options@, i as int) == self.state_var@
                    + spec_state_option_fragments(self.options@, 0),
            decreases n - i,
        {
            match self.options[i] {
                StateOption::Tracks(t) => {
                    s.append(".TrackingTracks(");
                    s.append(t.tracking_element());
                    s.append(")");
                },
                StateOption::Animates(t) => {
                    s.append(".TrackingAnimates(");
                    s.append(t.tracking_element());
                    s.append(")");
                },
            }
            i = i + 1;
        }
        s.append(";");
        w.write(s.as_str());
    }
}

/// The name carried by a parameter definition.
pub open spec fn spec_param_name(p: ParameterDefinition) -> String {
    match p {
        ParameterDefinition::Bool(n) => n,
        ParameterDefinition::Integer(n) => n,
    }
}

/// The parameter declarations of a prevention layer from position `i` on,
/// each under the variable name `param` followed by the parameter's name.
pub open spec fn spec_prevention_param_lines(
    params: Seq<ParameterDefinition>,
    ind: Seq<char>,
    i: int,
) -> Seq<char>
    decreases params.len() - i,
{
    if i < 0 || i >= params.len() {
        Seq::empty()
    } else {
        line_at(
            ind,
            crate::aac_object::spec_parameter_body(
                params[i],
                "param"@ + spec_param_name(params[i])@,
            ),
        ) + spec_prevention_param_lines(params, ind, i + 1)
    }
}

/// The guard expression for "this contributor is active": a boolean is true,
/// an integer is non-zero.
pub open spec fn spec_active_expr(p: ParameterDefinition) -> Seq<char> {
    match p {
        ParameterDefinition::Bool(n) => ("param"@ + n@) + ".IsTrue()"@,
        ParameterDefinition::Integer(n) => ("param"@ + n@) + ".IsNotEqualTo("@ + spec_dec(0) + ")"@,
    }
}

/// The guard expression for "this contributor is inactive": a boolean is
/// false, an integer is zero.
pub open spec fn spec_inactive_expr(p: ParameterDefinition) -> Seq<char> {
    match p {
        ParameterDefinition::Bool(n) => ("param"@ + n@) + ".IsFalse()"@,
        ParameterDefinition::Integer(n) => ("param"@ + n@) + ".IsEqualTo("@ + spec_dec(0) + ")"@,
    }
}

/// The rendered disjunction "any contributor active", from position `i` on.
pub open spec fn spec_any_active_text(params: Seq<ParameterDefinition>, i: int) -> Seq<char>
    decreases params.len() - i,
{
    if i < 0 || i >= params.len() {
        Seq::empty()
    } else {
        (if i == 0 {
            Seq::<char>::empty()
        } else {
            ".Or()"@
        }) + ".When("@ + spec_active_expr(params[i]) + ")"@ + spec_any_active_text(params, i + 1)
    }
}

/// The rendered conjunction "every contributor inactive", from position `i`
/// on.
pub open spec fn spec_all_inactive_text(params: Seq<ParameterDefinition>, i: int) -> Seq<char>
    decreases params.len() - i,
{
    if i < 0 || i >= params.len() {
        Seq::empty()
    } else {
        (if i == 0 {
            ".When("@
        } else {
            ".And("@
        }) + spec_inactive_expr(params[i]) + ")"@ + spec_all_inactive_text(params, i + 1)
    }
}

/// A disjunction of bare terms whose texts are the active-contributor
/// expressions renders as the active-contributor disjunction.
proof fn lemma_any_active(members: Seq<Cond>, params: Seq<ParameterDefinition>, i: int)
    requires
        members.len() == params.len(),
        forall|j: int|
            0 <= j < members.len() ==> (#[trigger] members[j]) is Term && members[j]->Term_0.spec_text() == spec_active_expr(params[j]),
    ensures
        spec_or_members_text(members, i) == spec_any_active_text(params, i),
    decreases members.len() - i,
{
    if i < 0 || i >= members.len() {
    } else {
        lemma_any_active(members, params, i + 1);
    }
}

/// A conjunction of terms whose texts are the inactive-contributor
/// expressions renders as the inactive-contributor conjunction.
proof fn lemma_all_inactive(terms: Seq<Cond>, params: Seq<ParameterDefinition>, i: int)
    requires
        terms.len() == params.len(),
        forall|j: int|
            0 <= j < terms.len() ==> (#[trigger] terms[j]) is Term && terms[j]->Term_0.spec_text() == spec_inactive_expr(params[j]),
    ensures
        spec_when_and_text(terms, i) == spec_all_inactive_text(params, i),
    decreases terms.len() - i,
{
    if i < 0 || i >= terms.len() {
    } else {
        lemma_all_inactive(terms, params, i + 1);
    }
}

/// The full text of a prevention layer: nothing when no contributor is
/// flagged for the target; else one block declaring a parameter per
/// contributor, a tracking and an animated state, and the two guarded
/// transitions between them.
pub open spec fn spec_prevention_layer_text(
    target: AnimationTarget,
    params: Seq<ParameterDefinition>,
    ind: Seq<char>,
    w: nat,
) -> Seq<char> {
    if params.len() == 0 {
        Seq::empty()
    } else {
        line_at(ind, "// Prevents Animation"@) + line_at(ind, "{"@) + spec_prevention_body_text(
            target,
            params,
            ind + spec_spaces(w),
        ) + line_at(ind, "}"@)
    }
}

/// `// Prevents Animation ...`: blocks the avatar's own animation of one
/// tracking target while any contributor is active.
pub struct PreventionLayer {
    pub target: AnimationTarget,
    pub params: Vec<ParameterDefinition>,
}

impl PreventionLayer {
    /// Creates a prevention layer for the target from its contributors.
    pub fn new(target: AnimationTarget, params: Vec<ParameterDefinition>) -> (r: PreventionLayer)
        ensures
            r.target == target,
            r.params == params,
    {
        PreventionLayer { target, params }
    }
}

/// Builds the variable name of a contributor's parameter.
fn prevention_var_name(p: &ParameterDefinition) -> (r: String)
    ensures
        r@ == "param"@ + spec_param_name(*p)@,
{
    let mut v = String::from_str("param");
    match p {
        ParameterDefinition::Bool(n) => v.append(n.as_str()),
        ParameterDefinition::Integer(n) => v.append(n.as_str()),
    }
    v
}

/// Rebuilds a contributor's parameter definition.
fn clone_param(p: &ParameterDefinition) -> (r: ParameterDefinition)
    ensures
        r == *p,
{
    match p {
        ParameterDefinition::Bool(n) => ParameterDefinition::Bool(n.clone()),
        ParameterDefinition::Integer(n) => ParameterDefinition::Integer(n.clone()),
    }
}

/// Builds the "contributor active" terms, one per parameter.
#[verifier::loop_isolation(false)]
fn active_members(params: &Vec<ParameterDefinition>) -> (r: Vec<Cond>)
    ensures
        r@.len() == params@.len(),
        forall|j: int|
            0 <= j < r@.len() ==> (#[trigger] r@[j]) is Term && r@[j]->Term_0.spec_text()
                == spec_active_expr(params@[j]),
{
    let n = params.len();
    let mut members: Vec<Cond> = Vec::new();
    let mut i: usize = 0;
    while i < n
        invariant
            i <= n,
            members@.len() == i,
            forall|j: int|
                0 <= j < i ==> (#[trigger] members@[j]) is Term
                    && members@[j]->Term_0.spec_text() == spec_active_expr(params@[j]),
        decreases n - i,
    {
        let var = prevention_var_name(&params[i]);
        match &params[i] {
            ParameterDefinition::Bool(_) => {
                members.push(Cond::Term(Expr::IsTrue(var)));
            },
            ParameterDefinition::Integer(_) => {
                members.push(Cond::Term(Expr::IntNotEqual(var, 0)));
            },
        }
        i = i + 1;
    }
    members
}

/// Builds the "contributor inactive" terms, one per parameter.
#[verifier::loop_isolation(false)]
fn inactive_terms(params: &Vec<ParameterDefinition>) -> (r: Vec<Cond>)
    ensures
        r@.len() == params@.len(),
        forall|j: int|
            0 <= j < r@.len() ==> (#[trigger] r@[j]) is Term && r@[j]->Term_0.spec_text()
                == spec_inactive_expr(params@[j]),
{
    let n = params.len();
    let mut terms: Vec<Cond> = Vec::new();
    let mut i: usize = 0;
    while i < n
        invariant
            i <= n,
            terms@.len() == i,
            forall|j: int|
                0 <= j < i ==> (#[trigger] terms@[j]) is Term
                    && terms@[j]->Term_0.spec_text() == spec_inactive_expr(params@[j]),
        decreases n - i,
    {
        let var = prevention_var_name(&params[i]);
        match &params[i] {
            ParameterDefinition::Bool(_) => {
                terms.push(Cond::Term(Expr::IsFalse(var)));
            },
            ParameterDefinition::Integer(_) => {
                terms.push(Cond::Term(Expr::IntEqual(var, 0)));
            },
        }
        i = i + 1;
    }
    terms
}

/// The inner text of a prevention layer, between the braces: the layer and
/// parameter declarations, the two states with their tracking settings, and
/// the two guarded transitions.
pub open spec fn spec_prevention_body_text(
    target: AnimationTarget,
    params: Seq<ParameterDefinition>,
    ind2: Seq<char>,
) -> Seq<char> {
    line_at(ind2, spec_layer_def_body(target.spec_displayed_name() + "_TrackingControl"@))
        + spec_prevention_param_lines(params, ind2, 0) + nl() + spec_state_line(
        "tracking"@,
        "Tracking"@,
        Option::None,
        Seq::empty(),
        ind2,
    ) + spec_state_options_text("tracking"@, seq![StateOption::Tracks(target)], ind2)
        + spec_state_line("animated"@, "Animated"@, Option::None, Seq::empty(), ind2)
        + spec_state_options_text("animated"@, seq![StateOption::Animates(target)], ind2) + nl()
        + line_at(
        ind2,
        "tracking"@ + ".TransitionsTo("@ + "animated"@ + ")"@ + spec_any_active_text(params, 0)
            + ";"@,
    ) + line_at(
        ind2,
        "animated"@ + ".TransitionsTo("@ + "tracking"@ + ")"@ + spec_all_inactive_text(params, 0)
            + ";"@,
    )
}

/// Writes the inner text of a prevention layer.
#[verifier::loop_isolation(false)]
fn write_prevention_body(
    target: AnimationTarget,
    params: &Vec<ParameterDefinition>,
    w: &mut CodeWriter,
)
    requires
        params@.len() > 0,
    ensures
        final(w).text() == old(w).text() + spec_prevention_body_text(
            target,
            params@,
            old(w).ind(),
        ),
        final(w).same_shape(old(w)),
{
    let ghost t0 = w.text();
    let ghost ind2 = w.ind();
    let n = params.len();
    let members = active_members(params);
    let ghost members_view = members@;
    let animated_condition = Cond::Or(members);
    let terms = inactive_terms(params);
    let ghost terms_view = terms@;
    let tracking_condition = Cond::And(terms);

    let mut layer_name = String::from_str(target.displayed_name());
    layer_name.append("_TrackingControl");
    LayerDefinition::new(layer_name).write_into(w);
    let ghost mut acc: Seq<char> = line_at(
        ind2,
        spec_layer_def_body(target.spec_displayed_name() + "_TrackingControl"@),
    );
    proof {
        assert(w.text() == t0 + acc);
    }

    let ghost base = w.text();
    let ghost shape0 = *w;
    let mut i: usize = 0;
    while i < n
        invariant
            i <= n,
            w.ind() == ind2,
            w.same_shape(&shape0),
            base + spec_prevention_param_lines(params@, ind2, 0) == w.text()
                + spec_prevention_param_lines(params@, ind2, i as int),
        decreases n - i,
    {
        let var = prevention_var_name(&params[i]);
        clone_param(&params[i]).write_into_var(var.as_str(), w);
        i = i + 1;
        proof {
            lemma_add_assoc(
                w.text(),
                Seq::<char>::empty(),
                spec_prevention_param_lines(params@, ind2, i as int),
            );
        }
    }
    proof {
        let plines = spec_prevention_param_lines(params@, ind2, 0);
        assert(w.text() =~= base + plines);
        lemma_add_assoc(t0, acc, plines);
        acc = acc + plines;
        assert(w.text() == t0 + acc);
    }
    w.write_empty();
    proof {
        lemma_add_assoc(t0, acc, nl());
        acc = acc + nl();
        assert(w.text() == t0 + acc);
    }

    let sd1 = StateDefinition::new(String::from_str("tracking"), String::from_str("Tracking"));
    let ghost sd1v = sd1;
    sd1.write_into(w);
    proof {
        lemma_state_text_flat(sd1v, ind2, w.width());
        let chunk = spec_state_line("tracking"@, "Tracking"@, Option::None, Seq::empty(), ind2);
        lemma_add_assoc(t0, acc, chunk);
        acc = acc + chunk;
        assert(w.text() == t0 + acc);
    }
    StateOptions::new(String::from_str("tracking")).tracks(target).write_into(w);
    proof {
        assert(Seq::<StateOption>::empty().push(StateOption::Tracks(target)) =~= seq![
            StateOption::Tracks(target)
        ]);
        let chunk = spec_state_options_text("tracking"@, seq![StateOption::Tracks(target)], ind2);
        lemma_add_assoc(t0, acc, chunk);
        acc = acc + chunk;
        assert(w.text() == t0 + acc);
    }
    let sd2 = StateDefinition::new(String::from_str("animated"), String::from_str("Animated"));
    let ghost sd2v = sd2;
    sd2.write_into(w);
    proof {
        lemma_state_text_flat(sd2v, ind2, w.width());
        let chunk = spec_state_line("animated"@, "Animated"@, Option::None, Seq::empty(), ind2);
        lemma_add_assoc(t0, acc, chunk);
        acc = acc + chunk;
        assert(w.text() == t0 + acc);
    }
    StateOptions::new(String::from_str("animated")).animates(target).write_into(w);
    proof {
        assert(Seq::<StateOption>::empty().push(StateOption::Animates(target)) =~= seq![
            StateOption::Animates(target)
        ]);
        let chunk = spec_state_options_text("animated"@, seq![StateOption::Animates(target)], ind2);
        lemma_add_assoc(t0, acc, chunk);
        acc = acc + chunk;
        assert(w.text() == t0 + acc);
    }
    w.write_empty();
    proof {
        lemma_add_assoc(t0, acc, nl());
        acc = acc + nl();
        assert(w.text() == t0 + acc);
    }

    proof {
        assert(spec_is_valid(animated_condition));
        assert(spec_is_valid(tracking_condition));
        lemma_any_active(members_view, params@, 0);
        lemma_all_inactive(terms_view, params@, 0);
    }
    Transition::new(String::from_str("tracking"), String::from_str("animated")).cond(
        animated_condition,
    ).write_into(w);
    proof {
        let chunk = line_at(
            ind2,
            "tracking"@ + ".TransitionsTo("@ + "animated"@ + ")"@ + spec_any_active_text(params@, 0)
                + ";"@,
        );
        lemma_add_assoc(t0, acc, chunk);
        acc = acc + chunk;
        assert(w.text() == t0 + acc);
    }
    Transition::new(String::from_str("animated"), String::from_str("tracking")).cond(
        tracking_condition,
    ).write_into(w);
    proof {
        let chunk = line_at(
            ind2,
            "animated"@ + ".TransitionsTo("@ + "tracking"@ + ")"@ + spec_all_inactive_text(
                params@,
                0,
            ) + ";"@,
        );
        lemma_add_assoc(t0, acc, chunk);
        acc = acc + chunk;
        assert(w.text() == t0 + acc);
        assert(acc == spec_prevention_body_text(target, params@, ind2));
    }
}

impl AacObject for PreventionLayer {
    open spec fn wf(&self) -> bool {
        true
    }

    fn write_into(self, w: &mut CodeWriter)
        ensures
            final(w).text() == old(w).text() + spec_prevention_layer_text(
                self.target,
                self.params@,
                old(w).ind(),
                old(w).width(),
            ),
            final(w).same_shape(old(w)),
    {
        if self.params.len() == 0 {
            return ;
        }
        let ghost t0 = w.text();
        let ghost ind = w.ind();
        w.write("// Prevents Animation");
        w.indent_with_block();
        let ghost mut acc: Seq<char> = line_at(ind, "// Prevents Animation"@);
        proof {
            lemma_add_assoc(t0, acc, line_at(ind, "{"@));
            acc = acc + line_at(ind, "{"@);
            assert(w.text() == t0 + acc);
        }
        write_prevention_body(self.target, &self.params, w);
        proof {
            let chunk = spec_prevention_body_text(
                self.target,
                self.params@,
                ind + spec_spaces(old(w).width()),
            );
            lemma_add_assoc(t0, acc, chunk);
            acc = acc + chunk;
            assert(w.text() == t0 + acc);
        }
        w.flush();
        proof {
            assert(w.stack() =~= old(w).stack());
            lemma_add_assoc(t0, acc, line_at(ind, "}"@));
            acc = acc + line_at(ind, "}"@);
            assert(w.text() == t0 + acc);
            assert(acc == spec_prevention_layer_text(
                self.target,
                self.params@,
                ind,
                old(w).width(),
            ));
        }
    }
}


/// A one-term guard: the `When` call around one expression.
pub open spec fn spec_term_guard(expr: Seq<char>) -> Seq<char> {
    ".When("@ + expr + ")"@
}

/// The inner text of a switch layer: the layer, renderer and boolean
/// parameter declarations, the disabled and enabled states each driving the
/// target shape to its configured value, and the two guarded transitions.
pub open spec fn spec_switch_body_text(sw: ShapeKeySwitch, ind2: Seq<char>) -> Seq<char> {
    line_at(ind2, spec_layer_def_body(sw.common.name@)) + line_at(
        ind2,
        crate::aac_object::spec_renderer_fetch_body(sw.common.mesh@),
    ) + line_at(
        ind2,
        crate::aac_object::spec_parameter_body(
            ParameterDefinition::Bool(sw.common.name),
            "parameter"@,
        ),
    ) + nl() + spec_state_line(
        "disabled"@,
        "false: Disabled"@,
        Option::None,
        spec_blend_fragment("renderer"@, seq![(sw.shape, sw.disabled_value)], 0),
        ind2,
    ) + spec_state_line(
        "enabled"@,
        "true: Enabled"@,
        Option::None,
        spec_blend_fragment("renderer"@, seq![(sw.shape, sw.enabled_value)], 0),
        ind2,
    ) + nl() + line_at(
        ind2,
        "disabled"@ + ".TransitionsTo("@ + "enabled"@ + ")"@ + spec_term_guard(
            "parameter"@ + ".IsTrue()"@,
        ) + ";"@,
    ) + line_at(
        ind2,
        "enabled"@ + ".TransitionsTo("@ + "disabled"@ + ")"@ + spec_term_guard(
            "parameter"@ + ".IsFalse()"@,
        ) + ";"@,
    )
}

/// The full text of a switch layer: a comment naming the switch and a block
/// holding its declarations, states, and transitions.
pub open spec fn spec_switch_layer_text(sw: ShapeKeySwitch, ind: Seq<char>, w: nat) -> Seq<char> {
    line_at(ind, "// Shape Key Switch \""@ + sw.common.name@ + "\""@) + line_at(ind, "{"@)
        + spec_switch_body_text(sw, ind + spec_spaces(w)) + line_at(ind, "}"@)
}

/// Writes the inner text of a switch layer.
fn write_switch_body(switch: ShapeKeySwitch, w: &mut CodeWriter)
    ensures
        final(w).text() == old(w).text() + spec_switch_body_text(switch, old(w).ind()),
        final(w).same_shape(old(w)),
{
    let ghost t0 = w.text();
    let ghost ind2 = w.ind();
    let ghost sw = switch;

    LayerDefinition::new(switch.common.name.clone()).write_into(w);
    let ghost mut acc: Seq<char> = line_at(ind2, spec_layer_def_body(sw.common.name@));
    proof {
        assert(w.text() == t0 + acc);
    }
    RendererFetch::new(switch.common.mesh.clone()).write_into(w);
    proof {
        let chunk = line_at(ind2, crate::aac_object::spec_renderer_fetch_body(sw.common.mesh@));
        lemma_add_assoc(t0, acc, chunk);
        acc = acc + chunk;
        assert(w.text() == t0 + acc);
    }
    ParameterDefinition::Bool(switch.common.name.clone()).write_into(w);
    proof {
        let chunk = line_at(
            ind2,
            crate::aac_object::spec_parameter_body(
                ParameterDefinition::Bool(sw.common.name),
                "parameter"@,
            ),
        );
        lemma_add_assoc(t0, acc, chunk);
        acc = acc + chunk;
        assert(w.text() == t0 + acc);
    }
    w.write_empty();
    proof {
        lemma_add_assoc(t0, acc, nl());
        acc = acc + nl();
        assert(w.text() == t0 + acc);
    }

    let mut bs1: Vec<(String, NormalizedValue)> = Vec::new();
    bs1.push((switch.shape.clone(), switch.disabled_value));
    let sd1 = StateDefinition::new(
        String::from_str("disabled"),
        String::from_str("false: Disabled"),
    ).blend_shapes(bs1);
    let ghost sd1v = sd1;
    sd1.write_into(w);
    proof {
        assert(sd1v.blend_shapes->0@ =~= seq![(sw.shape, sw.disabled_value)]);
        lemma_state_text_flat(sd1v, ind2, w.width());
        let chunk = spec_state_line(
            "disabled"@,
            "false: Disabled"@,
            Option::None,
            spec_blend_fragment("renderer"@, seq![(sw.shape, sw.disabled_value)], 0),
            ind2,
        );
        lemma_add_assoc(t0, acc, chunk);
        acc = acc + chunk;
        assert(w.text() == t0 + acc);
    }
    let mut bs2: Vec<(String, NormalizedValue)> = Vec::new();
    bs2.push((switch.shape.clone(), switch.enabled_value));
    let sd2 = StateDefinition::new(
        String::from_str("enabled"),
        String::from_str("true: Enabled"),
    ).blend_shapes(bs2);
    let ghost sd2v = sd2;
    sd2.write_into(w);
    proof {
        assert(sd2v.blend_shapes->0@ =~= seq![(sw.shape, sw.enabled_value)]);
        lemma_state_text_flat(sd2v, ind2, w.width());
        let chunk = spec_state_line(
            "enabled"@,
            "true: Enabled"@,
            Option::None,
            spec_blend_fragment("renderer"@, seq![(sw.shape, sw.enabled_value)], 0),
            ind2,
        );
        lemma_add_assoc(t0, acc, chunk);
        acc = acc + chunk;
        assert(w.text() == t0 + acc);
    }
    w.write_empty();
    proof {
        lemma_add_assoc(t0, acc, nl());
        acc = acc + nl();
        assert(w.text() == t0 + acc);
    }

    Transition::new(String::from_str("disabled"), String::from_str("enabled")).cond(
        Cond::Term(Expr::IsTrue(String::from_str("parameter"))),
    ).write_into(w);
    proof {
        let chunk = line_at(
            ind2,
            "disabled"@ + ".TransitionsTo("@ + "enabled"@ + ")"@ + spec_term_guard(
                "parameter"@ + ".IsTrue()"@,
            ) + ";"@,
        );
        lemma_add_assoc(t0, acc, chunk);
        acc = acc + chunk;
        assert(w.text() == t0 + acc);
    }
    Transition::new(String::from_str("enabled"), String::from_str("disabled")).cond(
        Cond::Term(Expr::IsFalse(String::from_str("parameter"))),
    ).write_into(w);
    proof {
        let chunk = line_at(
            ind2,
            "enabled"@ + ".TransitionsTo("@ + "disabled"@ + ")"@ + spec_term_guard(
                "parameter"@ + ".IsFalse()"@,
            ) + ";"@,
        );
        lemma_add_assoc(t0, acc, chunk);
        acc = acc + chunk;
        assert(w.text() == t0 + acc);
        assert(acc == spec_switch_body_text(sw, ind2));
    }
}

/// `// Shape Key Switch ...`: one two-state layer per switch.
pub struct ShapeKeySwitchLayer(pub ShapeKeySwitch);

impl ShapeKeySwitchLayer {
    /// Creates the emission object for one switch.
    pub fn new(switch: ShapeKeySwitch) -> (r: ShapeKeySwitchLayer)
        ensures
            r.0 == switch,
    {
        ShapeKeySwitchLayer(switch)
    }
}

impl AacObject for ShapeKeySwitchLayer {
    open spec fn wf(&self) -> bool {
        true
    }

    fn write_into(self, w: &mut CodeWriter)
        ensures
            final(w).text() == old(w).text() + spec_switch_layer_text(
                self.0,
                old(w).ind(),
                old(w).width(),
            ),
            final(w).same_shape(old(w)),
    {
        let ghost t0 = w.text();
        let ghost ind = w.ind();
        let ghost sw = self.0;
        let mut comment = String::from_str("// Shape Key Switch \"");
        comment.append(self.0.common.name.as_str());
        comment.append("\"");
        w.write(comment.as_str());
        w.indent_with_block();
        let ghost mut acc: Seq<char> = line_at(ind, "// Shape Key Switch \""@ + sw.common.name@ + "\""@);
        proof {
            lemma_add_assoc(t0, acc, line_at(ind, "{"@));
            acc = acc + line_at(ind, "{"@);
            assert(w.text() == t0 + acc);
        }
        write_switch_body(self.0, w);
        proof {
            let chunk = spec_switch_body_text(sw, ind + spec_spaces(old(w).width()));
            lemma_add_assoc(t0, acc, chunk);
            acc = acc + chunk;
            assert(w.text() == t0 + acc);
        }
        w.flush();
        proof {
            assert(w.stack() =~= old(w).stack());
            lemma_add_assoc(t0, acc, line_at(ind, "}"@));
            acc = acc + line_at(ind, "}"@);
            assert(w.text() == t0 + acc);
            assert(acc == spec_switch_layer_text(sw, ind, old(w).width()));
        }
    }
}


/// The shape name of one drive.
pub open spec fn drive_shape_fn() -> spec_fn(ShapeKeyDrive) -> String {
    |d: ShapeKeyDrive| d.shape
}

/// One (shape, value) pair of a drive.
pub open spec fn drive_pair_fn() -> spec_fn(ShapeKeyDrive) -> (String, NormalizedValue) {
    |d: ShapeKeyDrive| (d.shape, d.value)
}

/// Every shape name driven by any option, in option order, from position `i`
/// on.
pub open spec fn spec_all_drive_names_from(options: Seq<ShapeKeyOption>, i: int) -> Seq<String>
    decreases options.len() - i,
{
    if i < 0 || i >= options.len() {
        Seq::empty()
    } else {
        options[i].shapes@.map_values(drive_shape_fn()) + spec_all_drive_names_from(options, i + 1)
    }
}

/// The value the group's disabled state drives a shape to: the value of the
/// last default naming it, or 0.0 when no default names it.
pub open spec fn spec_default_drive_value(
    defaults: Seq<ShapeKeyDrive>,
    name: Seq<char>,
) -> NormalizedValue
    decreases defaults.len(),
{
    if defaults.len() == 0 {
        NormalizedValue::from_permille(0)
    } else if defaults.last().shape@ == name {
        defaults.last().value
    } else {
        spec_default_drive_value(defaults.drop_last(), name)
    }
}

/// The disabled-state pair of one shape name under the given defaults.
pub open spec fn default_pair_fn(defaults: Seq<ShapeKeyDrive>) -> spec_fn(String) -> (
    String,
    NormalizedValue,
) {
    |n: String| (n, spec_default_drive_value(defaults, n@))
}

/// The drives of a group's disabled state: every shape that appears in any
/// option, sorted and with duplicates removed, each at its default value.
pub open spec fn spec_group_disabled_pairs(g: ShapeKeyGroup) -> Seq<(String, NormalizedValue)> {
    crate::text::spec_dedup(
        crate::text::spec_sort_strings(spec_all_drive_names_from(g.options@, 0)),
    ).map_values(default_pair_fn(g.defaults@))
}

/// Collects every shape name driven by any option, in order.
#[verifier::loop_isolation(false)]
fn collect_drive_names(options: &Vec<ShapeKeyOption>) -> (r: Vec<String>)
    ensures
        r@ == spec_all_drive_names_from(options@, 0),
{
    let mut out: Vec<String> = Vec::new();
    let n = options.len();
    let mut i: usize = 0;
    while i < n
        invariant
            i <= n,
            spec_all_drive_names_from(options@, 0) == out@ + spec_all_drive_names_from(
                options@,
                i as int,
            ),
        decreases n - i,
    {
        let shapes = &options[i].shapes;
        let m = shapes.len();
        let ghost out0 = out@;
        let mut j: usize = 0;
        while j < m
            invariant
                j <= m,
                m == shapes@.len(),
                shapes@ == options@[i as int].shapes@,
                i < n,
                out@.len() == out0.len() + j,
                out@ =~= out0 + shapes@.map_values(drive_shape_fn()).take(j as int),
            decreases m - j,
        {
            out.push(shapes[j].shape.clone());
            proof {
                assert(shapes@.map_values(drive_shape_fn()).take(j + 1 as int)
                    =~= shapes@.map_values(drive_shape_fn()).take(j as int).push(
                    shapes@[j as int].shape,
                ));
            }
            j = j + 1;
        }
        proof {
            let smap = shapes@.map_values(drive_shape_fn());
            assert(smap.take(m as int) =~= smap);
            assert(out@ == out0 + smap);
            lemma_add_assoc(out0, smap, spec_all_drive_names_from(options@, i + 1 as int));
        }
        i = i + 1;
    }
    proof {
        assert(out@ =~= out@ + spec_all_drive_names_from(options@, n as int));
    }
    out
}

/// Finds the value the disabled state drives a shape to.
#[verifier::loop_isolation(false)]
fn default_value_for(defaults: &Vec<ShapeKeyDrive>, name: &String) -> (r: NormalizedValue)
    ensures
        r == spec_default_drive_value(defaults@, name@),
{
    let mut i: usize = defaults.len();
    proof {
        assert(defaults@.take(i as int) =~= defaults@);
    }
    while i > 0
        invariant
            i <= defaults@.len(),
            spec_default_drive_value(defaults@, name@) == spec_default_drive_value(
                defaults@.take(i as int),
                name@,
            ),
        decreases i,
    {
        i = i - 1;
        proof {
            assert(defaults@.take(i + 1 as int).last() == defaults@[i as int]);
            assert(defaults@.take(i + 1 as int).drop_last() =~= defaults@.take(i as int));
        }
        if defaults[i].shape == *name {
            return defaults[i].value;
        }
    }
    proof {
        assert(defaults@.take(0).len() == 0);
    }
    match NormalizedValue::new(0) {
        Option::Some(v) => v,
        Option::None => unreached(),
    }
}

/// Builds the disabled-state drive pairs of a group.
#[verifier::loop_isolation(false)]
fn disabled_pairs(options: &Vec<ShapeKeyOption>, defaults: &Vec<ShapeKeyDrive>) -> (r: Vec<
    (String, NormalizedValue),
>)
    ensures
        r@ == crate::text::spec_dedup(
            crate::text::spec_sort_strings(spec_all_drive_names_from(options@, 0)),
        ).map_values(default_pair_fn(defaults@)),
{
    let names = collect_drive_names(options);
    let sorted = crate::text::sort_strings(&names);
    let deduped = crate::text::dedup_strings(sorted);
    let n = deduped.len();
    let mut out: Vec<(String, NormalizedValue)> = Vec::new();
    let mut i: usize = 0;
    while i < n
        invariant
            i <= n,
            n == deduped@.len(),
            out@.len() == i,
            forall|j: int|
                0 <= j < i ==> out@[j] == (default_pair_fn(defaults@))(deduped@[j]),
        decreases n - i,
    {
        let name = deduped[i].clone();
        let value = default_value_for(defaults, &name);
        out.push((name, value));
        i = i + 1;
    }
    proof {
        assert(out@ =~= deduped@.map_values(default_pair_fn(defaults@)));
    }
    out
}


/// How many option states stand between two canvas anchors.
pub const ALIGN_UNIT: usize = 8;

/// The canvas anchor in effect when the option at position `i` is emitted:
/// the disabled state first, then the most recent option state that was
/// anchored (every eighth, by position).
pub open spec fn spec_anchor_at(options: Seq<ShapeKeyOption>, i: int) -> Seq<char>
    decreases i,
{
    if i <= 0 {
        "disabled"@
    } else if (i - 1) % (ALIGN_UNIT as int) == 0 {
        "enabled"@ + spec_dec(spec_assigned_index(options[i - 1], i - 1) as nat)
    } else {
        spec_anchor_at(options, i - 1)
    }
}

/// The text of one option state: a blank line, the state driving the
/// option's shapes (anchored to the right of the previous anchor for every
/// eighth option), the entry transition when the parameter equals the
/// option's index, and the exit transition when it no longer does.
pub open spec fn spec_group_option_text(
    o: ShapeKeyOption,
    pos: int,
    anchor: Seq<char>,
    ind2: Seq<char>,
) -> Seq<char> {
    let index = spec_assigned_index(o, pos) as nat;
    let sv = "enabled"@ + spec_dec(index);
    let ro: Option<Seq<char>> = if pos % (ALIGN_UNIT as int) == 0 {
        Option::Some(anchor)
    } else {
        Option::None
    };
    nl() + spec_state_line(
        sv,
        spec_dec(index) + ": "@ + o.label@,
        ro,
        spec_blend_fragment("renderer"@, o.shapes@.map_values(drive_pair_fn()), 0),
        ind2,
    ) + line_at(
        ind2,
        "disabled"@ + ".TransitionsTo("@ + sv + ")"@ + spec_term_guard(
            "parameter"@ + ".IsEqualTo("@ + spec_dec(index) + ")"@,
        ) + ";"@,
    ) + line_at(
        ind2,
        sv + ".Exits()"@ + spec_term_guard(
            "parameter"@ + ".IsNotEqualTo("@ + spec_dec(index) + ")"@,
        ) + ";"@,
    )
}

/// The texts of the option states from position `i` on.
pub open spec fn spec_group_options_text_from(
    options: Seq<ShapeKeyOption>,
    ind2: Seq<char>,
    i: int,
) -> Seq<char>
    decreases options.len() - i,
{
    if i < 0 || i >= options.len() {
        Seq::empty()
    } else {
        spec_group_option_text(options[i], i, spec_anchor_at(options, i), ind2)
            + spec_group_options_text_from(options, ind2, i + 1)
    }
}

/// The inner text of a group layer: the layer, renderer and integer
/// parameter declarations, the disabled state driving every appearing shape
/// to its default, and one state with transitions per option.
pub open spec fn spec_group_body_text(g: ShapeKeyGroup, ind2: Seq<char>, w: nat) -> Seq<char> {
    line_at(ind2, spec_layer_def_body(g.common.name@)) + line_at(
        ind2,
        crate::aac_object::spec_renderer_fetch_body(g.common.mesh@),
    ) + line_at(
        ind2,
        crate::aac_object::spec_parameter_body(
            ParameterDefinition::Integer(g.common.name),
            "parameter"@,
        ),
    ) + nl() + spec_state_lines_indented(
        "disabled"@,
        "0: Disabled"@,
        Option::None,
        "renderer"@,
        spec_group_disabled_pairs(g),
        ind2,
        w,
    ) + spec_group_options_text_from(g.options@, ind2, 0)
}

/// The full text of a group layer: a comment naming the group and a block
/// holding its declarations and states.
pub open spec fn spec_group_layer_text(g: ShapeKeyGroup, ind: Seq<char>, w: nat) -> Seq<char> {
    line_at(ind, "// Shape Key Switch \""@ + g.common.name@ + "\""@) + line_at(ind, "{"@)
        + spec_group_body_text(g, ind + spec_spaces(w), w) + line_at(ind, "}"@)
}

/// Builds the (shape, value) pairs of one option.
#[verifier::loop_isolation(false)]
fn option_pairs(shapes: &Vec<ShapeKeyDrive>) -> (r: Vec<(String, NormalizedValue)>)
    ensures
        r@ == shapes@.map_values(drive_pair_fn()),
{
    let n = shapes.len();
    let mut out: Vec<(String, NormalizedValue)> = Vec::new();
    let mut i: usize = 0;
    while i < n
        invariant
            i <= n,
            out@.len() == i,
            forall|j: int| 0 <= j < i ==> out@[j] == (drive_pair_fn())(shapes@[j]),
        decreases n - i,
    {
        out.push((shapes[i].shape.clone(), shapes[i].value));
        i = i + 1;
    }
    proof {
        assert(out@ =~= shapes@.map_values(drive_pair_fn()));
    }
    out
}

/// Writes the state and transitions of one option.
#[verifier::loop_isolation(false)]
fn write_group_option(
    option: &ShapeKeyOption,
    pos: usize,
    anchor: &String,
    w: &mut CodeWriter,
)
    requires
        pos < usize::MAX,
    ensures
        final(w).text() == old(w).text() + spec_group_option_text(
            *option,
            pos as int,
            anchor@,
            old(w).ind(),
        ),
        final(w).same_shape(old(w)),
{
    let ghost t0 = w.text();
    let ghost ind2 = w.ind();
    let index: usize = match &option.index {
        Option::Some(pi) => pi.get(),
        Option::None => pos + 1,
    };
    proof {
        assert(index as int == spec_assigned_index(*option, pos as int));
    }
    let index_str = usize_to_string(index);

    let mut sv = String::from_str("enabled");
    sv.append(index_str.as_str());
    let mut sn = index_str.clone();
    sn.append(": ");
    sn.append(option.label.as_str());

    w.write_empty();
    let ghost mut acc: Seq<char> = nl();
    proof {
        assert(w.text() == t0 + acc);
    }

    let pairs = option_pairs(&option.shapes);
    let mut sd = StateDefinition::new(sv.clone(), sn).blend_shapes(pairs);
    if pos % ALIGN_UNIT == 0 {
        sd = sd.right_of(anchor.clone());
    }
    let ghost sdv = sd;
    sd.write_into(w);
    proof {
        lemma_state_text_flat(sdv, ind2, w.width());
        let chunk = spec_state_line(
            "enabled"@ + spec_dec(index as nat),
            spec_dec(index as nat) + ": "@ + option.label@,
            if pos as int % (ALIGN_UNIT as int) == 0 {
                Option::Some(anchor@)
            } else {
                Option::None
            },
            spec_blend_fragment("renderer"@, option.shapes@.map_values(drive_pair_fn()), 0),
            ind2,
        );
        assert(spec_state_text(sdv, ind2, w.width()) == chunk);
        lemma_add_assoc(t0, acc, chunk);
        acc = acc + chunk;
        assert(w.text() == t0 + acc);
    }

    Transition::new(String::from_str("disabled"), sv.clone()).cond(
        Cond::Term(Expr::IntEqual(String::from_str("parameter"), index)),
    ).write_into(w);
    proof {
        let chunk = line_at(
            ind2,
            "disabled"@ + ".TransitionsTo("@ + ("enabled"@ + spec_dec(index as nat)) + ")"@
                + spec_term_guard("parameter"@ + ".IsEqualTo("@ + spec_dec(index as nat) + ")"@)
                + ";"@,
        );
        lemma_add_assoc(t0, acc, chunk);
        acc = acc + chunk;
        assert(w.text() == t0 + acc);
    }
    Transition::exits(sv).cond(
        Cond::Term(Expr::IntNotEqual(String::from_str("parameter"), index)),
    ).write_into(w);
    proof {
        let chunk = line_at(
            ind2,
            ("enabled"@ + spec_dec(index as nat)) + ".Exits()"@ + spec_term_guard(
                "parameter"@ + ".IsNotEqualTo("@ + spec_dec(index as nat) + ")"@,
            ) + ";"@,
        );
        lemma_add_assoc(t0, acc, chunk);
        acc = acc + chunk;
        assert(w.text() == t0 + acc);
        assert(acc == spec_group_option_text(*option, pos as int, anchor@, ind2));
    }
}

/// Writes the inner text of a group layer.
#[verifier::loop_isolation(false)]
fn write_group_body(group: ShapeKeyGroup, w: &mut CodeWriter)
    ensures
        final(w).text() == old(w).text() + spec_group_body_text(group, old(w).ind(), old(w).width()),
        final(w).same_shape(old(w)),
{
    let ghost t0 = w.text();
    let ghost ind2 = w.ind();
    let ghost g = group;

    LayerDefinition::new(group.common.name.clone()).write_into(w);
    let ghost mut acc: Seq<char> = line_at(ind2, spec_layer_def_body(g.common.name@));
    proof {
        assert(w.text() == t0 + acc);
    }
    RendererFetch::new(group.common.mesh.clone()).write_into(w);
    proof {
        let chunk = line_at(ind2, crate::aac_object::spec_renderer_fetch_body(g.common.mesh@));
        lemma_add_assoc(t0, acc, chunk);
        acc = acc + chunk;
        assert(w.text() == t0 + acc);
    }
    ParameterDefinition::Integer(group.common.name.clone()).write_into(w);
    proof {
        let chunk = line_at(
            ind2,
            crate::aac_object::spec_parameter_body(
                ParameterDefinition::Integer(g.common.name),
                "parameter"@,
            ),
        );
        lemma_add_assoc(t0, acc, chunk);
        acc = acc + chunk;
        assert(w.text() == t0 + acc);
    }
    w.write_empty();
    proof {
        lemma_add_assoc(t0, acc, nl());
        acc = acc + nl();
        assert(w.text() == t0 + acc);
    }

    let pairs = disabled_pairs(&group.options, &group.defaults);
    let sd = StateDefinition::new(
        String::from_str("disabled"),
        String::from_str("0: Disabled"),
    ).blend_shapes(pairs).indented();
    let ghost sdv = sd;
    sd.write_into(w);
    proof {
        lemma_state_text_indented(sdv, ind2, w.width());
        let chunk = spec_state_lines_indented(
            "disabled"@,
            "0: Disabled"@,
            Option::None,
            "renderer"@,
            spec_group_disabled_pairs(g),
            ind2,
            w.width(),
        );
        assert(sdv.blend_shapes->0@ == spec_group_disabled_pairs(g));
        assert(spec_state_text(sdv, ind2, w.width()) == chunk);
        lemma_add_assoc(t0, acc, chunk);
        acc = acc + chunk;
        assert(w.text() == t0 + acc);
    }

    let mut right_of = String::from_str("disabled");
    let n = group.options.len();
    let ghost base = w.text();
    let ghost shape0 = *w;
    let mut i: usize = 0;
    while i < n
        invariant
            i <= n,
            n == group.options@.len(),
            w.ind() == ind2,
            w.same_shape(&shape0),
            right_of@ == spec_anchor_at(group.options@, i as int),
            base + spec_group_options_text_from(group.options@, ind2, 0) == w.text()
                + spec_group_options_text_from(group.options@, ind2, i as int),
        decreases n - i,
    {
        let ghost tb = w.text();
        write_group_option(&group.options[i], i, &right_of, w);
        if i % ALIGN_UNIT == 0 {
            let index: usize = match &group.options[i].index {
                Option::Some(pi) => pi.get(),
                Option::None => i + 1,
            };
            let mut sv = String::from_str("enabled");
            let index_str = usize_to_string(index);
            sv.append(index_str.as_str());
            right_of = sv;
        }
        proof {
            let chunk = spec_group_option_text(
                group.options@[i as int],
                i as int,
                spec_anchor_at(group.options@, i as int),
                ind2,
            );
            lemma_add_assoc(
                tb,
                chunk,
                spec_group_options_text_from(group.options@, ind2, i + 1 as int),
            );
        }
        i = i + 1;
    }
    proof {
        assert(w.text() =~= base + spec_group_options_text_from(group.options@, ind2, 0));
        let chunk = spec_group_options_text_from(g.options@, ind2, 0);
        lemma_add_assoc(t0, acc, chunk);
        acc = acc + chunk;
        assert(w.text() == t0 + acc);
        assert(acc == spec_group_body_text(g, ind2, w.width()));
    }
}

/// `// Shape Key Switch ...`: one integer-parameter layer per group.
pub struct ShapeKeyGroupLayer(pub ShapeKeyGroup);

impl ShapeKeyGroupLayer {
    /// Creates the emission object for one group.
    pub fn new(group: ShapeKeyGroup) -> (r: ShapeKeyGroupLayer)
        ensures
            r.0 == group,
    {
        ShapeKeyGroupLayer(group)
    }
}

impl AacObject for ShapeKeyGroupLayer {
    open spec fn wf(&self) -> bool {
        true
    }

    fn write_into(self, w: &mut CodeWriter)
        ensures
            final(w).text() == old(w).text() + spec_group_layer_text(
                self.0,
                old(w).ind(),
                old(w).width(),
            ),
            final(w).same_shape(old(w)),
    {
        let ghost t0 = w.text();
        let ghost ind = w.ind();
        let ghost g = self.0;
        let mut comment = String::from_str("// Shape Key Switch \"");
        comment.append(self.0.common.name.as_str());
        comment.append("\"");
        w.write(comment.as_str());
        w.indent_with_block();
        let ghost mut acc: Seq<char> = line_at(
            ind,
            "// Shape Key Switch \""@ + g.common.name@ + "\""@,
        );
        proof {
            lemma_add_assoc(t0, acc, line_at(ind, "{"@));
            acc = acc + line_at(ind, "{"@);
            assert(w.text() == t0 + acc);
        }
        write_group_body(self.0, w);
        proof {
            let chunk = spec_group_body_text(g, ind + spec_spaces(old(w).width()), old(w).width());
            lemma_add_assoc(t0, acc, chunk);
            acc = acc + chunk;
            assert(w.text() == t0 + acc);
        }
        w.flush();
        proof {
            assert(w.stack() =~= old(w).stack());
            lemma_add_assoc(t0, acc, line_at(ind, "}"@));
            acc = acc + line_at(ind, "}"@);
            assert(w.text() == t0 + acc);
            assert(acc == spec_group_layer_text(g, ind, old(w).width()));
        }
    }
}


/// The flag of a group or switch for one prevention target.
pub open spec fn spec_prevents(prevent_eyelids: bool, prevent_mouth: bool, eyelids: bool) -> bool {
    if eyelids {
        prevent_eyelids
    } else {
        prevent_mouth
    }
}

/// The integer contributors among the groups, from position `i` on.
pub open spec fn spec_prevention_groups_from(
    groups: Seq<ShapeKeyGroup>,
    eyelids: bool,
    i: int,
) -> Seq<ParameterDefinition>
    decreases groups.len() - i,
{
    if i < 0 || i >= groups.len() {
        Seq::empty()
    } else {
        (if spec_prevents(groups[i].common.prevent_eyelids, groups[i].common.prevent_mouth, eyelids) {
            seq![ParameterDefinition::Integer(groups[i].common.name)]
        } else {
            Seq::empty()
        }) + spec_prevention_groups_from(groups, eyelids, i + 1)
    }
}

/// The boolean contributors among the switches, from position `i` on.
pub open spec fn spec_prevention_switches_from(
    switches: Seq<ShapeKeySwitch>,
    eyelids: bool,
    i: int,
) -> Seq<ParameterDefinition>
    decreases switches.len() - i,
{
    if i < 0 || i >= switches.len() {
        Seq::empty()
    } else {
        (if spec_prevents(
            switches[i].common.prevent_eyelids,
            switches[i].common.prevent_mouth,
            eyelids,
        ) {
            seq![ParameterDefinition::Bool(switches[i].common.name)]
        } else {
            Seq::empty()
        }) + spec_prevention_switches_from(switches, eyelids, i + 1)
    }
}

/// Every contributor flagged for one prevention target: the groups first (as
/// integer parameters), then the switches (as boolean parameters).
pub open spec fn spec_prevention_params(d: Descriptor, eyelids: bool) -> Seq<ParameterDefinition> {
    spec_prevention_groups_from(d.shape_groups@, eyelids, 0) + spec_prevention_switches_from(
        d.shape_switches@,
        eyelids,
        0,
    )
}

/// Gathers the contributors flagged for one prevention target.
#[verifier::loop_isolation(false)]
fn gather_prevention_params(d: &Descriptor, eyelids: bool) -> (r: Vec<ParameterDefinition>)
    ensures
        r@ == spec_prevention_params(*d, eyelids),
{
    let mut out: Vec<ParameterDefinition> = Vec::new();
    let n = d.shape_groups.len();
    let mut i: usize = 0;
    while i < n
        invariant
            i <= n,
            spec_prevention_groups_from(d.shape_groups@, eyelids, 0) == out@
                + spec_prevention_groups_from(d.shape_groups@, eyelids, i as int),
        decreases n - i,
    {
        let g = &d.shape_groups[i];
        let flagged = if eyelids {
            g.common.prevent_eyelids
        } else {
            g.common.prevent_mouth
        };
        if flagged {
            let ghost out0 = out@;
            out.push(ParameterDefinition::Integer(g.common.name.clone()));
            proof {
                assert(out@ =~= out0 + seq![
                    ParameterDefinition::Integer(d.shape_groups@[i as int].common.name)
                ]);
                lemma_add_assoc(
                    out0,
                    seq![ParameterDefinition::Integer(d.shape_groups@[i as int].common.name)],
                    spec_prevention_groups_from(d.shape_groups@, eyelids, i + 1 as int),
                );
            }
        }
        i = i + 1;
    }
    proof {
        assert(out@ =~= out@ + spec_prevention_groups_from(d.shape_groups@, eyelids, n as int));
    }
    let ghost base = out@;
    let m = d.shape_switches.len();
    let mut i: usize = 0;
    while i < m
        invariant
            i <= m,
            base + spec_prevention_switches_from(d.shape_switches@, eyelids, 0) == out@
                + spec_prevention_switches_from(d.shape_switches@, eyelids, i as int),
        decreases m - i,
    {
        let sw = &d.shape_switches[i];
        let flagged = if eyelids {
            sw.common.prevent_eyelids
        } else {
            sw.common.prevent_mouth
        };
        if flagged {
            let ghost out0 = out@;
            out.push(ParameterDefinition::Bool(sw.common.name.clone()));
            proof {
                assert(out@ =~= out0 + seq![
                    ParameterDefinition::Bool(d.shape_switches@[i as int].common.name)
                ]);
                lemma_add_assoc(
                    out0,
                    seq![ParameterDefinition::Bool(d.shape_switches@[i as int].common.name)],
                    spec_prevention_switches_from(d.shape_switches@, eyelids, i + 1 as int),
                );
            }
        } else {
            proof {
                lemma_add_assoc(
                    out@,
                    Seq::<ParameterDefinition>::empty(),
                    spec_prevention_switches_from(d.shape_switches@, eyelids, i + 1 as int),
                );
            }
        }
        i = i + 1;
    }
    proof {
        assert(out@ + spec_prevention_switches_from(d.shape_switches@, eyelids, m as int) =~= out@);
    }
    out
}

/// The preamble: the import lines, the editor-only ones inside a
/// conditional-compilation region.
pub open spec fn spec_preamble_text(ind: Seq<char>) -> Seq<char> {
    line_at(ind, "// This file is generated by sk2aac"@) + line_at(ind, "using UnityEngine;"@)
        + "#if "@ + "UNITY_EDITOR"@ + nl() + line_at(ind, "using UnityEditor;"@) + line_at(
        ind,
        "using UnityEditor.Animations;"@,
    ) + line_at(ind, "using VRC.SDK3.Avatars.Components;"@) + line_at(
        ind,
        "using static AnimatorAsCode.V0.AacFlState;"@,
    ) + line_at(ind, "using AnimatorAsCodeFramework.Examples;"@) + "#endif"@ + nl()
}

/// Writes the preamble import lines.
fn write_preamble(w: &mut CodeWriter)
    ensures
        final(w).text() == old(w).text() + spec_preamble_text(old(w).ind()),
        final(w).same_shape(old(w)),
{
    let ghost t0 = w.text();
    let ghost ind = w.ind();
    w.write("// This file is generated by sk2aac");
    w.write("using UnityEngine;");
    w.wrap_ifdef("UNITY_EDITOR");
    w.write("using UnityEditor;");
    w.write("using UnityEditor.Animations;");
    w.write("using VRC.SDK3.Avatars.Components;");
    w.write("using static AnimatorAsCode.V0.AacFlState;");
    w.write("using AnimatorAsCodeFramework.Examples;");
    w.flush();
    proof {
        assert(w.stack() =~= old(w).stack());
        assert(w.text() =~= t0 + spec_preamble_text(ind));
    }
}

/// The editor-integration class: inside the editor-only region, a single
/// inspector button invoking the generation method.
pub open spec fn spec_editor_class_text(cn: Seq<char>, ind: Seq<char>, w: nat) -> Seq<char> {
    let ind1 = ind + spec_spaces(w);
    let ind2 = ind1 + spec_spaces(w);
    "#if "@ + "UNITY_EDITOR"@ + nl() + line_at(ind, "public class "@ + cn + "_Editor : Editor"@)
        + line_at(ind, "{"@) + line_at(ind1, "public override void OnInspectorGUI()"@) + line_at(
        ind1,
        "{"@,
    ) + line_at(ind2, "base.OnInspectorGUI();"@) + line_at(
        ind2,
        "var executor = target as "@ + cn + ";"@,
    ) + line_at(ind2, "if (GUILayout.Button(\"Generate\"))"@) + line_at(ind2, "{"@) + line_at(
        ind2,
        "    executor.GenerateAnimator();"@,
    ) + line_at(ind2, "}"@) + line_at(ind1, "}"@) + line_at(ind, "}"@) + "#endif"@ + nl()
}

/// Writes the editor-integration class for the given class name.
#[verifier::rlimit(60)]
fn write_editor_class(class_name: &String, w: &mut CodeWriter)
    ensures
        final(w).text() == old(w).text() + spec_editor_class_text(
            class_name@,
            old(w).ind(),
            old(w).width(),
        ),
        final(w).same_shape(old(w)),
{
    let ghost t0 = w.text();
    let ghost ind = w.ind();
    w.wrap_ifdef("UNITY_EDITOR");
    let mut head = String::from_str("public class ");
    head.append(class_name.as_str());
    head.append("_Editor : Editor");
    w.write(head.as_str());
    w.indent_with_block();
    w.write("public override void OnInspectorGUI()");
    w.indent_with_block();
    w.write("base.OnInspectorGUI();");
    let mut executor = String::from_str("var executor = target as ");
    executor.append(class_name.as_str());
    executor.append(";");
    w.write(executor.as_str());
    w.write("if (GUILayout.Button(\"Generate\"))");
    w.write("{");
    w.write("    executor.GenerateAnimator();");
    w.write("}");
    w.flush();
    w.flush();
    w.flush();
    proof {
        assert(w.stack() =~= old(w).stack());
        assert(w.text() =~= t0 + spec_editor_class_text(class_name@, ind, old(w).width()));
    }
}

/// The switch layers in descriptor order, each preceded by a blank line,
/// from position `i` on.
pub open spec fn spec_switch_layers_from(
    switches: Seq<ShapeKeySwitch>,
    ind: Seq<char>,
    w: nat,
    i: int,
) -> Seq<char>
    decreases switches.len() - i,
{
    if i < 0 || i >= switches.len() {
        Seq::empty()
    } else {
        nl() + spec_switch_layer_text(switches[i], ind, w) + spec_switch_layers_from(
            switches,
            ind,
            w,
            i + 1,
        )
    }
}

/// The group layers in descriptor order, each preceded by a blank line, from
/// position `i` on.
pub open spec fn spec_group_layers_from(
    groups: Seq<ShapeKeyGroup>,
    ind: Seq<char>,
    w: nat,
    i: int,
) -> Seq<char>
    decreases groups.len() - i,
{
    if i < 0 || i >= groups.len() {
        Seq::empty()
    } else {
        nl() + spec_group_layer_text(groups[i], ind, w) + spec_group_layers_from(
            groups,
            ind,
            w,
            i + 1,
        )
    }
}

/// The generated class name for a descriptor.
pub open spec fn spec_class_name(d: Descriptor) -> Seq<char> {
    "SK2AACGenerator_"@ + d.name@
}

/// The behaviour class: its generation method establishes the generation
/// context and emits the prevention layers, then one layer per switch and
/// per group, in descriptor order.
pub open spec fn spec_behaviour_class_text(d: Descriptor, ind: Seq<char>, w: nat) -> Seq<char> {
    spec_behaviour_head_text(spec_class_name(d), ind, w) + spec_behaviour_layers_text(
        d,
        ind + spec_spaces(w) + spec_spaces(w),
        w,
    ) + line_at(ind + spec_spaces(w), "}"@) + line_at(ind, "}"@)
}

/// The head of the behaviour class: the class and method declarations and
/// the generation-context lines.
pub open spec fn spec_behaviour_head_text(cn: Seq<char>, ind: Seq<char>, w: nat) -> Seq<char> {
    let ind1 = ind + spec_spaces(w);
    let ind2 = ind1 + spec_spaces(w);
    line_at(ind, "public class "@ + cn + " : MonoBehaviour"@) + line_at(ind, "{"@) + line_at(
        ind1,
        "public void GenerateAnimator()"@,
    ) + line_at(ind1, "{"@) + line_at(
        ind2,
        "var avatarDescriptor = GetComponent<VRCAvatarDescriptor>();"@,
    ) + line_at(
        ind2,
        "var aac = AacExample.AnimatorAsCode(\"SK2AAC\", avatarDescriptor, TargetContainer, AssetKey, AacExample.Options().WriteDefaultsOff());"@,
    ) + line_at(ind2, "// var fxDefault = aac.CreateMainFxLayer();"@)
}

/// Writes the behaviour-class head, leaving the class and method blocks
/// open.
#[verifier::rlimit(30)]
fn write_behaviour_head(name: &String, w: &mut CodeWriter)
    ensures
        final(w).text() == old(w).text() + spec_behaviour_head_text(
            "SK2AACGenerator_"@ + name@,
            old(w).ind(),
            old(w).width(),
        ),
        final(w).ind() == old(w).ind() + spec_spaces(old(w).width()) + spec_spaces(old(w).width()),
        final(w).width() == old(w).width(),
        final(w).stack() == old(w).stack().push(
            ScopeView { term: Option::Some(("}"@, true)), prev: old(w).ind() },
        ).push(
            ScopeView {
                term: Option::Some(("}"@, true)),
                prev: old(w).ind() + spec_spaces(old(w).width()),
            },
        ),
{
    let ghost t0 = w.text();
    let ghost ind = w.ind();
    let mut head = String::from_str("public class SK2AACGenerator_");
    head.append(name.as_str());
    head.append(" : MonoBehaviour");
    proof {
        reveal_strlit("public class SK2AACGenerator_");
        reveal_strlit("public class ");
        reveal_strlit("SK2AACGenerator_");
        assert("public class SK2AACGenerator_"@ =~= "public class "@ + "SK2AACGenerator_"@);
    }
    w.write(head.as_str());
    w.indent_with_block();
    let ghost mut acc: Seq<char> = line_at(
        ind,
        "public class "@ + ("SK2AACGenerator_"@ + name@) + " : MonoBehaviour"@,
    );
    proof {
        assert(head@ == ("public class "@ + ("SK2AACGenerator_"@ + name@)) + " : MonoBehaviour"@);
        lemma_add_assoc("public class "@ + ("SK2AACGenerator_"@ + name@), " : MonoBehaviour"@, nl());
        lemma_add_assoc(t0, acc, line_at(ind, "{"@));
        acc = acc + line_at(ind, "{"@);
        assert(w.text() == t0 + acc);
    }
    let ghost ind1 = w.ind();
    w.write("public void GenerateAnimator()");
    proof {
        let chunk = line_at(ind1, "public void GenerateAnimator()"@);
        lemma_add_assoc(t0, acc, chunk);
        acc = acc + chunk;
        assert(w.text() == t0 + acc);
    }
    w.indent_with_block();
    proof {
        let chunk = line_at(ind1, "{"@);
        lemma_add_assoc(t0, acc, chunk);
        acc = acc + chunk;
        assert(w.text() == t0 + acc);
    }
    let ghost ind2 = w.ind();
    w.write("var avatarDescriptor = GetComponent<VRCAvatarDescriptor>();");
    proof {
        let chunk = line_at(ind2, "var avatarDescriptor = GetComponent<VRCAvatarDescriptor>();"@);
        lemma_add_assoc(t0, acc, chunk);
        acc = acc + chunk;
        assert(w.text() == t0 + acc);
    }
    w.write(
        "var aac = AacExample.AnimatorAsCode(\"SK2AAC\", avatarDescriptor, TargetContainer, AssetKey, AacExample.Options().WriteDefaultsOff());",
    );
    proof {
        let chunk = line_at(
            ind2,
            "var aac = AacExample.AnimatorAsCode(\"SK2AAC\", avatarDescriptor, TargetContainer, AssetKey, AacExample.Options().WriteDefaultsOff());"@,
        );
        lemma_add_assoc(t0, acc, chunk);
        acc = acc + chunk;
        assert(w.text() == t0 + acc);
    }
    w.write("// var fxDefault = aac.CreateMainFxLayer();");
    proof {
        let chunk = line_at(ind2, "// var fxDefault = aac.CreateMainFxLayer();"@);
        lemma_add_assoc(t0, acc, chunk);
        acc = acc + chunk;
        assert(w.text() == t0 + acc);
        assert(acc == spec_behaviour_head_text("SK2AACGenerator_"@ + name@, ind, old(w).width()));
    }
}

/// The layers of the generation method: the two prevention layers, then one
/// layer per switch and per group, each preceded by a blank line.
pub open spec fn spec_behaviour_layers_text(d: Descriptor, ind2: Seq<char>, w: nat) -> Seq<char> {
    nl() + spec_prevention_layer_text(
        AnimationTarget::Eyelids,
        spec_prevention_params(d, true),
        ind2,
        w,
    ) + nl() + spec_prevention_layer_text(
        AnimationTarget::JawAndMouth,
        spec_prevention_params(d, false),
        ind2,
        w,
    ) + spec_switch_layers_from(d.shape_switches@, ind2, w, 0) + spec_group_layers_from(
        d.shape_groups@,
        ind2,
        w,
        0,
    )
}

/// Writes one switch layer per switch, each preceded by a blank line.
#[verifier::rlimit(30)]
#[verifier::loop_isolation(false)]
fn write_switch_layers(switches: Vec<ShapeKeySwitch>, w: &mut CodeWriter)
    ensures
        final(w).text() == old(w).text() + spec_switch_layers_from(
            switches@,
            old(w).ind(),
            old(w).width(),
            0,
        ),
        final(w).same_shape(old(w)),
{
    let mut switches = switches;
    let total = switches.len();
    let ghost switches0 = switches@;
    let ghost ind2 = w.ind();
    let ghost base = w.text();
    let ghost shape0 = *w;
    let mut k: usize = 0;
    while switches.len() > 0
        invariant
            k + switches@.len() == total,
            switches@ =~= switches0.skip(k as int),
            w.ind() == ind2,
            w.same_shape(&shape0),
            base + spec_switch_layers_from(switches0, ind2, shape0.width(), 0) == w.text()
                + spec_switch_layers_from(switches0, ind2, shape0.width(), k as int),
        decreases switches@.len(),
    {
        let ghost tb = w.text();
        let sw = switches.remove(0);
        proof {
            assert(sw == switches0[k as int]);
            assert(switches@ =~= switches0.skip(k as int + 1));
        }
        w.write_empty();
        ShapeKeySwitchLayer::new(sw).write_into(w);
        proof {
            let chunk = spec_switch_layer_text(switches0[k as int], ind2, shape0.width());
            lemma_add_assoc(tb, nl(), chunk);
            lemma_add_assoc(
                tb,
                nl() + chunk,
                spec_switch_layers_from(switches0, ind2, shape0.width(), k + 1 as int),
            );
        }
        k = k + 1;
    }
    proof {
        assert(w.text() =~= base + spec_switch_layers_from(switches0, ind2, shape0.width(), 0));
    }
}

/// Writes one group layer per group, each preceded by a blank line.
#[verifier::rlimit(30)]
#[verifier::loop_isolation(false)]
fn write_group_layers(groups: Vec<ShapeKeyGroup>, w: &mut CodeWriter)
    ensures
        final(w).text() == old(w).text() + spec_group_layers_from(
            groups@,
            old(w).ind(),
            old(w).width(),
            0,
        ),
        final(w).same_shape(old(w)),
{
    let mut groups = groups;
    let total = groups.len();
    let ghost groups0 = groups@;
    let ghost ind2 = w.ind();
    let ghost base = w.text();
    let ghost shape0 = *w;
    let mut k: usize = 0;
    while groups.len() > 0
        invariant
            k + groups@.len() == total,
            groups@ =~= groups0.skip(k as int),
            w.ind() == ind2,
            w.same_shape(&shape0),
            base + spec_group_layers_from(groups0, ind2, shape0.width(), 0) == w.text()
                + spec_group_layers_from(groups0, ind2, shape0.width(), k as int),
        decreases groups@.len(),
    {
        let ghost tb = w.text();
        let g = groups.remove(0);
        proof {
            assert(g == groups0[k as int]);
            assert(groups@ =~= groups0.skip(k as int + 1));
        }
        w.write_empty();
        ShapeKeyGroupLayer::new(g).write_into(w);
        proof {
            let chunk = spec_group_layer_text(groups0[k as int], ind2, shape0.width());
            lemma_add_assoc(tb, nl(), chunk);
            lemma_add_assoc(
                tb,
                nl() + chunk,
                spec_group_layers_from(groups0, ind2, shape0.width(), k + 1 as int),
            );
        }
        k = k + 1;
    }
    proof {
        assert(w.text() =~= base + spec_group_layers_from(groups0, ind2, shape0.width(), 0));
    }
}

/// Writes every layer of the generation method.
#[verifier::rlimit(30)]
fn write_behaviour_layers(descriptor: Descriptor, w: &mut CodeWriter)
    ensures
        final(w).text() == old(w).text() + spec_behaviour_layers_text(
            descriptor,
            old(w).ind(),
            old(w).width(),
        ),
        final(w).same_shape(old(w)),
{
    let ghost d = descriptor;
    let ghost t0 = w.text();
    let ghost ind2 = w.ind();

    let eyelid_params = gather_prevention_params(&descriptor, true);
    w.write_empty();
    let ghost mut acc: Seq<char> = nl();
    proof {
        assert(w.text() == t0 + acc);
    }
    PreventionLayer::new(AnimationTarget::Eyelids, eyelid_params).write_into(w);
    proof {
        let chunk = spec_prevention_layer_text(
            AnimationTarget::Eyelids,
            spec_prevention_params(d, true),
            ind2,
            w.width(),
        );
        lemma_add_assoc(t0, acc, chunk);
        acc = acc + chunk;
        assert(w.text() == t0 + acc);
    }
    let mouth_params = gather_prevention_params(&descriptor, false);
    w.write_empty();
    proof {
        lemma_add_assoc(t0, acc, nl());
        acc = acc + nl();
        assert(w.text() == t0 + acc);
    }
    PreventionLayer::new(AnimationTarget::JawAndMouth, mouth_params).write_into(w);
    proof {
        let chunk = spec_prevention_layer_text(
            AnimationTarget::JawAndMouth,
            spec_prevention_params(d, false),
            ind2,
            w.width(),
        );
        lemma_add_assoc(t0, acc, chunk);
        acc = acc + chunk;
        assert(w.text() == t0 + acc);
    }

    write_switch_layers(descriptor.shape_switches, w);
    proof {
        let chunk = spec_switch_layers_from(d.shape_switches@, ind2, w.width(), 0);
        lemma_add_assoc(t0, acc, chunk);
        acc = acc + chunk;
        assert(w.text() == t0 + acc);
    }
    write_group_layers(descriptor.shape_groups, w);
    proof {
        let chunk = spec_group_layers_from(d.shape_groups@, ind2, w.width(), 0);
        lemma_add_assoc(t0, acc, chunk);
        acc = acc + chunk;
        assert(w.text() == t0 + acc);
        assert(acc == spec_behaviour_layers_text(d, ind2, w.width()));
    }
}

/// Writes the behaviour class of a descriptor.
#[verifier::rlimit(30)]
fn write_behaviour_class(descriptor: Descriptor, w: &mut CodeWriter)
    ensures
        final(w).text() == old(w).text() + spec_behaviour_class_text(
            descriptor,
            old(w).ind(),
            old(w).width(),
        ),
        final(w).same_shape(old(w)),
{
    let ghost d = descriptor;
    let ghost t0 = w.text();
    let ghost ind = w.ind();
    let ghost ind1 = ind + spec_spaces(w.width());
    let name = descriptor.name.clone();
    write_behaviour_head(&name, w);
    let ghost mut acc: Seq<char> = spec_behaviour_head_text(
        spec_class_name(d),
        ind,
        old(w).width(),
    );
    proof {
        assert("SK2AACGenerator_"@ + d.name@ == spec_class_name(d));
        assert(w.text() == t0 + acc);
    }
    write_behaviour_layers(descriptor, w);
    proof {
        let chunk = spec_behaviour_layers_text(
            d,
            ind + spec_spaces(old(w).width()) + spec_spaces(old(w).width()),
            old(w).width(),
        );
        lemma_add_assoc(t0, acc, chunk);
        acc = acc + chunk;
        assert(w.text() == t0 + acc);
    }
    w.flush();
    proof {
        let chunk = line_at(ind1, "}"@);
        lemma_add_assoc(t0, acc, chunk);
        acc = acc + chunk;
        assert(w.text() == t0 + acc);
    }
    w.flush();
    proof {
        assert(w.stack() =~= old(w).stack());
        let chunk = line_at(ind, "}"@);
        lemma_add_assoc(t0, acc, chunk);
        acc = acc + chunk;
        assert(w.text() == t0 + acc);
        assert(acc == spec_behaviour_class_text(d, ind, old(w).width()));
    }
}

/// The whole generated program text for a descriptor: the preamble, the
/// editor-integration class, and the behaviour class, separated by blank
/// lines, indented four spaces per unit.
pub open spec fn spec_descriptor_code(d: Descriptor) -> Seq<char> {
    spec_preamble_text(Seq::empty()) + nl() + spec_editor_class_text(
        spec_class_name(d),
        Seq::empty(),
        4,
    ) + nl() + spec_behaviour_class_text(d, Seq::empty(), 4)
}

/// Generates the program text for a descriptor. Returns the generated class
/// name and the full text.
pub fn write_descriptor_code(descriptor: Descriptor) -> (r: (String, String))
    ensures
        r.0@ == spec_class_name(descriptor),
        r.1@ == spec_descriptor_code(descriptor),
{
    let ghost d = descriptor;
    let mut class_name = String::from_str("SK2AACGenerator_");
    class_name.append(descriptor.name.as_str());
    let mut w = CodeWriter::new(4);
    let ghost t0 = w.text();
    write_preamble(&mut w);
    let ghost mut acc: Seq<char> = spec_preamble_text(Seq::empty());
    proof {
        assert(w.text() == t0 + acc);
    }
    w.write_empty();
    proof {
        lemma_add_assoc(t0, acc, nl());
        acc = acc + nl();
        assert(w.text() == t0 + acc);
    }
    write_editor_class(&class_name, &mut w);
    proof {
        let chunk = spec_editor_class_text(spec_class_name(d), Seq::empty(), 4);
        lemma_add_assoc(t0, acc, chunk);
        acc = acc + chunk;
        assert(w.text() == t0 + acc);
    }
    w.write_empty();
    proof {
        lemma_add_assoc(t0, acc, nl());
        acc = acc + nl();
        assert(w.text() == t0 + acc);
    }
    write_behaviour_class(descriptor, &mut w);
    proof {
        let chunk = spec_behaviour_class_text(d, Seq::empty(), 4);
        lemma_add_assoc(t0, acc, chunk);
        acc = acc + chunk;
        assert(w.text() == t0 + acc);
        assert(t0 =~= Seq::<char>::empty());
        assert(t0 + acc =~= acc);
        assert(acc == spec_descriptor_code(d));
    }
    let output = w.into_output();
    (class_name, output)
}


/// With no contributor flagged among the groups, the group part of the
/// contributor list is empty.
proof fn lemma_no_flags_groups(groups: Seq<ShapeKeyGroup>, eyelids: bool, i: int)
    requires
        forall|j: int|
            0 <= j < groups.len() ==> !spec_prevents(
                (#[trigger] groups[j]).common.prevent_eyelids,
                groups[j].common.prevent_mouth,
                eyelids,
            ),
    ensures
        spec_prevention_groups_from(groups, eyelids, i) == Seq::<ParameterDefinition>::empty(),
    decreases groups.len() - i,
{
    if i < 0 || i >= groups.len() {
    } else {
        lemma_no_flags_groups(groups, eyelids, i + 1);
        assert(Seq::<ParameterDefinition>::empty() + Seq::<ParameterDefinition>::empty()
            =~= Seq::<ParameterDefinition>::empty());
    }
}

/// With no contributor flagged among the switches, the switch part of the
/// contributor list is empty.
proof fn lemma_no_flags_switches(switches: Seq<ShapeKeySwitch>, eyelids: bool, i: int)
    requires
        forall|j: int|
            0 <= j < switches.len() ==> !spec_prevents(
                (#[trigger] switches[j]).common.prevent_eyelids,
                switches[j].common.prevent_mouth,
                eyelids,
            ),
    ensures
        spec_prevention_switches_from(switches, eyelids, i) == Seq::<ParameterDefinition>::empty(),
    decreases switches.len() - i,
{
    if i < 0 || i >= switches.len() {
    } else {
        lemma_no_flags_switches(switches, eyelids, i + 1);
        assert(Seq::<ParameterDefinition>::empty() + Seq::<ParameterDefinition>::empty()
            =~= Seq::<ParameterDefinition>::empty());
    }
}

/// When no switch and no group is flagged for a prevention target, that
/// target's contributor list is empty and its prevention layer emits no text
/// at all.
pub proof fn lemma_no_flags_no_prevention(
    d: Descriptor,
    target: AnimationTarget,
    eyelids: bool,
    ind: Seq<char>,
    w: nat,
)
    requires
        forall|j: int|
            0 <= j < d.shape_switches@.len() ==> !spec_prevents(
                (#[trigger] d.shape_switches@[j]).common.prevent_eyelids,
                d.shape_switches@[j].common.prevent_mouth,
                eyelids,
            ),
        forall|j: int|
            0 <= j < d.shape_groups@.len() ==> !spec_prevents(
                (#[trigger] d.shape_groups@[j]).common.prevent_eyelids,
                d.shape_groups@[j].common.prevent_mouth,
                eyelids,
            ),
    ensures
        spec_prevention_params(d, eyelids) == Seq::<ParameterDefinition>::empty(),
        spec_prevention_layer_text(target, spec_prevention_params(d, eyelids), ind, w)
            == Seq::<char>::empty(),
{
    lemma_no_flags_groups(d.shape_groups@, eyelids, 0);
    lemma_no_flags_switches(d.shape_switches@, eyelids, 0);
    assert(Seq::<ParameterDefinition>::empty() + Seq::<ParameterDefinition>::empty()
        =~= Seq::<ParameterDefinition>::empty());
}

} // verus!
