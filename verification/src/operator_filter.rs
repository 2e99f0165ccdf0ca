//! Operator filtering: predefined operator tiers and custom selections.
//!
//! The tiers rank the operators by empirically measured kill-effectiveness:
//! Light holds the three most effective operators, Medium the top five, and
//! Heavy all seven. A custom selection names its operators explicitly.

use vstd::prelude::*;

use crate::text::{join_strings, spec_join, str_eq};

verus! {

/// Enum representing all available mutation operators.
#[derive(Debug, Clone, Copy, PartialEq, Eq, Hash, Structural)]
pub enum Operator {
    UnaryOperatorReplacement,
    DeleteStatement,
    BreakContinueReplacement,
    BinaryOperatorReplacement,
    IfElseReplacement,
    LiteralReplacement,
    BinaryOperatorSwap,
}

impl Operator {
    /// The fixed name string of the operator, used for mode filtering and
    /// statistics.
    pub open spec fn spec_name(self) -> Seq<char> {
        match self {
            Operator::UnaryOperatorReplacement => "unary_operator_replacement"@,
            Operator::DeleteStatement => "delete_statement"@,
            Operator::BreakContinueReplacement => "break_continue_replacement"@,
            Operator::BinaryOperatorReplacement => "binary_operator_replacement"@,
            Operator::IfElseReplacement => "if_else_replacement"@,
            Operator::LiteralReplacement => "literal_replacement"@,
            Operator::BinaryOperatorSwap => "binary_operator_swap"@,
        }
    }

    pub fn as_str(self) -> (r: &'static str)
        ensures
            r@ == self.spec_name(),
    {
        match self {
            Operator::UnaryOperatorReplacement => "unary_operator_replacement",
            Operator::DeleteStatement => "delete_statement",
            Operator::BreakContinueReplacement => "break_continue_replacement",
            Operator::BinaryOperatorReplacement => "binary_operator_replacement",
            Operator::IfElseReplacement => "if_else_replacement",
            Operator::LiteralReplacement => "literal_replacement",
            Operator::BinaryOperatorSwap => "binary_operator_swap",
        }
    }

    /// All seven operators, in tier order.
    pub open spec fn spec_all() -> Seq<Operator> {
        seq![
            Operator::UnaryOperatorReplacement,
            Operator::DeleteStatement,
            Operator::BreakContinueReplacement,
            Operator::BinaryOperatorReplacement,
            Operator::IfElseReplacement,
            Operator::LiteralReplacement,
            Operator::BinaryOperatorSwap,
        ]
    }

    pub fn all() -> (r: Vec<Operator>)
        ensures
            r@ == Operator::spec_all(),
    {
        let mut r: Vec<Operator> = Vec::new();
        r.push(Operator::UnaryOperatorReplacement);
        r.push(Operator::DeleteStatement);
        r.push(Operator::BreakContinueReplacement);
        r.push(Operator::BinaryOperatorReplacement);
        r.push(Operator::IfElseReplacement);
        r.push(Operator::LiteralReplacement);
        r.push(Operator::BinaryOperatorSwap);
        proof {
            assert(r@ =~= Operator::spec_all());
        }
        r
    }

    /// Parse an operator from its name; `None` when no operator bears it.
    pub fn parse(s: &str) -> (r: Option<Operator>)
        ensures
            match r {
                Some(op) => op.spec_name() == s@,
                None => forall|op: Operator| op.spec_name() != s@,
            },
    {
        if str_eq(s, "unary_operator_replacement") {
            Some(Operator::UnaryOperatorReplacement)
        } else if str_eq(s, "delete_statement") {
            Some(Operator::DeleteStatement)
        } else if str_eq(s, "break_continue_replacement") {
            Some(Operator::BreakContinueReplacement)
        } else if str_eq(s, "binary_operator_replacement") {
            Some(Operator::BinaryOperatorReplacement)
        } else if str_eq(s, "if_else_replacement") {
            Some(Operator::IfElseReplacement)
        } else if str_eq(s, "literal_replacement") {
            Some(Operator::LiteralReplacement)
        } else if str_eq(s, "binary_operator_swap") {
            Some(Operator::BinaryOperatorSwap)
        } else {
            proof {
                assert forall|op: Operator| op.spec_name() != s@ by {
                    if op == Operator::UnaryOperatorReplacement {
                    } else if op == Operator::DeleteStatement {
                    } else if op == Operator::BreakContinueReplacement {
                    } else if op == Operator::BinaryOperatorReplacement {
                    } else if op == Operator::IfElseReplacement {
                    } else if op == Operator::LiteralReplacement {
                    } else {
                        assert(op == Operator::BinaryOperatorSwap);
                    }
                }
            }
            None
        }
    }
}

impl core::str::FromStr for Operator {
    type Err = String;

    fn from_str(s: &str) -> Result<Self, Self::Err> {
        match Operator::parse(s) {
            Some(op) => Ok(op),
            None => Err(unknown_operator_message(s)),
        }
    }
}

/// The error text for a name that matches no operator.
pub open spec fn spec_unknown_operator_message(s: Seq<char>) -> Seq<char> {
    "Unknown operator: "@ + s
}

pub fn unknown_operator_message(s: &str) -> (r: String)
    ensures
        r@ == spec_unknown_operator_message(s@),
{
    let mut r = "Unknown operator: ".to_owned();
    r.append(s);
    r
}

/// Mutation operator mode that determines which operators are enabled.
///
/// Exactly one of a named tier or a custom operator list is configured for a
/// run; the tiers are nested, with Heavy containing Medium containing Light.
#[derive(Debug, Clone, PartialEq)]
pub enum OperatorMode {
    /// Light mode: only the most effective operators (fastest execution).
    Light,
    /// Medium mode: balanced selection of effective operators.
    Medium,
    /// Heavy mode: all available operators (maximum coverage), the default.
    Heavy,
    /// Custom mode: a validated, user-specified set of operators.
    Custom(Vec<Operator>),
}

impl OperatorMode {
    /// The operators enabled by this mode.
    pub open spec fn spec_operators(self) -> Seq<Operator> {
        match self {
            OperatorMode::Light => Operator::spec_all().take(3),
            OperatorMode::Medium => Operator::spec_all().take(5),
            OperatorMode::Heavy => Operator::spec_all(),
            OperatorMode::Custom(ops) => ops@,
        }
    }

    /// Returns operators for Light mode: the top three by effectiveness.
    pub fn light_operators() -> (r: Vec<Operator>)
        ensures
            r@ == OperatorMode::Light.spec_operators(),
    {
        let mut r: Vec<Operator> = Vec::new();
        r.push(Operator::UnaryOperatorReplacement);
        r.push(Operator::DeleteStatement);
        r.push(Operator::BreakContinueReplacement);
        proof {
            assert(r@ =~= Operator::spec_all().take(3));
        }
        r
    }

    /// Returns operators for Medium mode: the top five by effectiveness.
    pub fn medium_operators() -> (r: Vec<Operator>)
        ensures
            r@ == OperatorMode::Medium.spec_operators(),
    {
        let mut r: Vec<Operator> = Vec::new();
        r.push(Operator::UnaryOperatorReplacement);
        r.push(Operator::DeleteStatement);
        r.push(Operator::BreakContinueReplacement);
        r.push(Operator::BinaryOperatorReplacement);
        r.push(Operator::IfElseReplacement);
        proof {
            assert(r@ =~= Operator::spec_all().take(5));
        }
        r
    }

    /// Returns operators for Heavy mode: all available operators.
    pub fn heavy_operators() -> (r: Vec<Operator>)
        ensures
            r@ == OperatorMode::Heavy.spec_operators(),
    {
        Operator::all()
    }

    /// Returns the list of enabled operators as an enum.
    pub fn operators_enum(&self) -> (r: Vec<Operator>)
        ensures
            r@ == self.spec_operators(),
    {
        match self {
            OperatorMode::Light => OperatorMode::light_operators(),
            OperatorMode::Medium => OperatorMode::medium_operators(),
            OperatorMode::Heavy => OperatorMode::heavy_operators(),
            OperatorMode::Custom(ops) => {
                let mut r: Vec<Operator> = Vec::new();
                let mut i: usize = 0;
                while i < ops.len()
                    invariant
                        i <= ops.len(),
                        r@ == ops@.take(i as int),
                    decreases ops.len() - i,
                {
                    r.push(ops[i]);
                    proof {
                        assert(ops@.take(i + 1) =~= ops@.take(i as int).push(ops@[i as int]));
                    }
                    i += 1;
                }
                proof {
                    assert(ops@.take(ops@.len() as int) =~= ops@);
                }
                r
            },
        }
    }

    /// Returns the list of enabled operator names for this mode.
    pub fn get_operators(&self) -> (r: Vec<&'static str>)
        ensures
            r@.map_values(|s: &'static str| s@) == self.spec_operators().map_values(
                |op: Operator| op.spec_name(),
            ),
    {
        let ops = self.operators_enum();
        let mut r: Vec<&'static str> = Vec::new();
        let mut i: usize = 0;
        while i < ops.len()
            invariant
                i <= ops.len(),
                ops@ == self.spec_operators(),
                r@.map_values(|s: &'static str| s@) == ops@.take(i as int).map_values(
                    |op: Operator| op.spec_name(),
                ),
            decreases ops.len() - i,
        {
            let name = ops[i].as_str();
            let ghost pre = r@;
            r.push(name);
            proof {
                assert(ops@.take(i + 1) =~= ops@.take(i as int).push(ops@[i as int]));
                let m1 = r@.map_values(|s: &'static str| s@);
                let m2 = ops@.take(i + 1).map_values(|op: Operator| op.spec_name());
                assert(pre.map_values(|s: &'static str| s@).len() == pre.len());
                assert(pre.len() == i);
                assert(m1.len() == m2.len());
                assert forall|j: int| 0 <= j < m1.len() implies m1[j] == m2[j] by {
                    if j < m1.len() - 1 {
                        assert(pre.map_values(|s: &'static str| s@)[j] == ops@.take(
                            i as int,
                        ).map_values(|op: Operator| op.spec_name())[j]);
                        assert(m1[j] == pre.map_values(|s: &'static str| s@)[j]);
                        assert(m2[j] == ops@.take(i as int).map_values(
                            |op: Operator| op.spec_name(),
                        )[j]);
                    } else {
                        assert(r@[j] == name);
                        assert(m1[j] == name@);
                        assert(ops@.take(i + 1)[j] == ops@[i as int]);
                        assert(m2[j] == ops@[i as int].spec_name());
                    }
                }
                assert(m1 =~= m2);
            }
            i += 1;
        }
        proof {
            assert(ops@.take(ops@.len() as int) =~= ops@);
        }
        r
    }

    /// Checks if the specified operator is enabled in this mode.
    pub fn should_apply(&self, operator: Operator) -> (r: bool)
        ensures
            r == self.spec_operators().contains(operator),
    {
        let ops = self.operators_enum();
        let mut i: usize = 0;
        while i < ops.len()
            invariant
                i <= ops.len(),
                ops@ == self.spec_operators(),
                forall|j: int| 0 <= j < i ==> ops@[j] != operator,
            decreases ops.len() - i,
        {
            if ops[i] == operator {
                proof {
                    assert(self.spec_operators()[i as int] == operator);
                }
                return true;
            }
            i += 1;
        }
        false
    }

    /// Gets a display-friendly name for this mode.
    pub fn display_name(&self) -> (r: String)
        ensures
            r@ == match self {
                OperatorMode::Light => "LIGHT"@,
                OperatorMode::Medium => "MEDIUM"@,
                OperatorMode::Heavy => "HEAVY"@,
                OperatorMode::Custom(_) => "CUSTOM"@,
            },
    {
        match self {
            OperatorMode::Light => "LIGHT".to_owned(),
            OperatorMode::Medium => "MEDIUM".to_owned(),
            OperatorMode::Heavy => "HEAVY".to_owned(),
            OperatorMode::Custom(_) => "CUSTOM".to_owned(),
        }
    }

    /// A name is valid exactly when some operator bears it.
    pub open spec fn spec_name_valid(s: Seq<char>) -> bool {
        exists|op: Operator| (#[trigger] op.spec_name()) == s
    }

    /// The names among the given ones that match no operator, in order.
    pub open spec fn spec_invalid_names(names: Seq<Seq<char>>) -> Seq<Seq<char>> {
        names.filter(|s: Seq<char>| !OperatorMode::spec_name_valid(s))
    }

    /// The error text naming every invalid entry plus the full valid set.
    pub open spec fn spec_invalid_message(names: Seq<Seq<char>>) -> Seq<char> {
        "Invalid operator name(s): "@ + spec_join(OperatorMode::spec_invalid_names(names), ", "@)
            + ". Valid operators are: "@ + spec_operator_listing()
    }

    /// Validates a list of operator names; any unknown name aggregates into a
    /// single error naming all unknown entries plus the full valid set.
    pub fn validate_operators(operators: &Vec<String>) -> (r: Result<(), String>)
        ensures
            r is Ok <==> OperatorMode::spec_invalid_names(
                operators@.map_values(|s: String| s@),
            ).len() == 0,
            r matches Err(m) ==> m@ == OperatorMode::spec_invalid_message(
                operators@.map_values(|s: String| s@),
            ),
    {
        let ghost views = operators@.map_values(|s: String| s@);
        let mut invalid_ops: Vec<String> = Vec::new();
        let mut i: usize = 0;
        proof {
            reveal(Seq::filter);
            assert(views.take(0) =~= Seq::<Seq<char>>::empty());
            assert(OperatorMode::spec_invalid_names(views.take(0)) =~= Seq::<Seq<char>>::empty());
        }
        while i < operators.len()
            invariant
                i <= operators.len(),
                views == operators@.map_values(|s: String| s@),
                invalid_ops@.map_values(|s: String| s@) == OperatorMode::spec_invalid_names(
                    views.take(i as int),
                ),
            decreases operators.len() - i,
        {
            let valid = Operator::parse(operators[i].as_str()).is_some();
            let ghost pre = invalid_ops@;
            if !valid {
                invalid_ops.push(operators[i].clone());
            }
            proof {
                reveal(Seq::filter);
                let pred = |s: Seq<char>| !OperatorMode::spec_name_valid(s);
                assert(views.take(i + 1).drop_last() =~= views.take(i as int));
                assert(views.take(i + 1).last() == views[i as int]);
                assert(views[i as int] == operators@[i as int]@);
                if valid {
                    assert(OperatorMode::spec_name_valid(views[i as int]));
                    assert(OperatorMode::spec_invalid_names(views.take(i + 1))
                        == OperatorMode::spec_invalid_names(views.take(i as int)));
                } else {
                    assert forall|op: Operator| op.spec_name() != views[i as int] by {}
                    assert(!OperatorMode::spec_name_valid(views[i as int]));
                    assert(OperatorMode::spec_invalid_names(views.take(i + 1))
                        == OperatorMode::spec_invalid_names(views.take(i as int)).push(
                        views[i as int],
                    ));
                    let m1 = invalid_ops@.map_values(|s: String| s@);
                    let m2 = OperatorMode::spec_invalid_names(views.take(i + 1));
                    assert forall|j: int| 0 <= j < m1.len() implies m1[j] == m2[j] by {
                        if j < m1.len() - 1 {
                            assert(pre.map_values(|s: String| s@)[j]
                                == OperatorMode::spec_invalid_names(views.take(i as int))[j]);
                        }
                    }
                    assert(m1 =~= m2);
                }
            }
            i += 1;
        }
        proof {
            assert(views.take(views.len() as int) =~= views);
        }
        if invalid_ops.len() == 0 {
            Ok(())
        } else {
            let mut msg = "Invalid operator name(s): ".to_owned();
            let joined = join_strings(&invalid_ops, ", ");
            msg.append(joined.as_str());
            msg.append(". Valid operators are: ");
            let listing = operator_listing();
            msg.append(listing.as_str());
            proof {
                assert(msg@ =~= OperatorMode::spec_invalid_message(views));
            }
            Err(msg)
        }
    }

    /// Parses a list of operator name strings into operators; every name must
    /// be valid, else the aggregate error of `validate_operators` is
    /// returned.
    pub fn parse_operators(operator_names: &Vec<String>) -> (r: Result<Vec<Operator>, String>)
        ensures
            r is Ok <==> OperatorMode::spec_invalid_names(
                operator_names@.map_values(|s: String| s@),
            ).len() == 0,
            r matches Ok(v) ==> v@.len() == operator_names@.len() && forall|i: int|
                0 <= i < v@.len() ==> (#[trigger] v@[i]).spec_name() == operator_names@[i]@,
            r matches Err(m) ==> m@ == OperatorMode::spec_invalid_message(
                operator_names@.map_values(|s: String| s@),
            ),
    {
        match OperatorMode::validate_operators(operator_names) {
            Err(m) => Err(m),
            Ok(_) => {
                let ghost views = operator_names@.map_values(|s: String| s@);
                let mut v: Vec<Operator> = Vec::new();
                let mut i: usize = 0;
                while i < operator_names.len()
                    invariant
                        i <= operator_names.len(),
                        views == operator_names@.map_values(|s: String| s@),
                        OperatorMode::spec_invalid_names(views).len() == 0,
                        v@.len() == i,
                        forall|j: int|
                            0 <= j < i ==> (#[trigger] v@[j]).spec_name() == operator_names@[j]@,
                    decreases operator_names.len() - i,
                {
                    proof {
                        if !OperatorMode::spec_name_valid(views[i as int]) {
                            let pred = |s: Seq<char>| !OperatorMode::spec_name_valid(s);
                            views.lemma_filter_contains(pred, i as int);
                            assert(OperatorMode::spec_invalid_names(views).contains(
                                views[i as int],
                            ));
                        }
                    }
                    match Operator::parse(operator_names[i].as_str()) {
                        Some(op) => {
                            v.push(op);
                        },
                        None => {
                            proof {
                                assert(!OperatorMode::spec_name_valid(views[i as int]));
                            }
                            unreached::<()>();
                        },
                    }
                    i += 1;
                }
                Ok(v)
            },
        }
    }

    /// Returns a formatted listing of all available operator names.
    pub fn list_all_operators() -> (r: String)
        ensures
            r@ == spec_operator_listing(),
    {
        operator_listing()
    }
}

impl Default for OperatorMode {
    /// Heavy mode enables every operator and is the default.
    fn default() -> (r: Self)
        ensures
            r == OperatorMode::Heavy,
    {
        OperatorMode::Heavy
    }
}

/// The listing of all operator names, one per indented line.
pub open spec fn spec_operator_listing() -> Seq<char> {
    spec_join(
        Operator::spec_all().map_values(|op: Operator| "  - "@ + op.spec_name()),
        "\n"@,
    )
}

fn operator_listing() -> (r: String)
    ensures
        r@ == spec_operator_listing(),
{
    let all = Operator::all();
    let mut lines: Vec<String> = Vec::new();
    let mut i: usize = 0;
    while i < all.len()
        invariant
            i <= all.len(),
            all@ == Operator::spec_all(),
            lines@.map_values(|s: String| s@) == all@.take(i as int).map_values(
                |op: Operator| "  - "@ + op.spec_name(),
            ),
        decreases all.len() - i,
    {
        let mut line = "  - ".to_owned();
        line.append(all[i].as_str());
        let ghost lv = line@;
        let ghost pre = lines@;
        lines.push(line);
        proof {
            assert(all@.take(i + 1) =~= all@.take(i as int).push(all@[i as int]));
            let m1 = lines@.map_values(|s: String| s@);
            let m2 = all@.take(i + 1).map_values(|op: Operator| "  - "@ + op.spec_name());
            assert(pre.map_values(|s: String| s@).len() == pre.len());
            assert(pre.len() == i);
            assert(m1.len() == m2.len());
            assert forall|j: int| 0 <= j < m1.len() implies m1[j] == m2[j] by {
                if j < m1.len() - 1 {
                    assert(pre.map_values(|s: String| s@)[j] == all@.take(i as int).map_values(
                        |op: Operator| "  - "@ + op.spec_name(),
                    )[j]);
                    assert(m1[j] == pre.map_values(|s: String| s@)[j]);
                    assert(m2[j] == all@.take(i as int).map_values(
                        |op: Operator| "  - "@ + op.spec_name(),
                    )[j]);
                } else {
                    assert(m1[j] == lv);
                    assert(all@.take(i + 1)[j] == all@[i as int]);
                    assert(m2[j] == "  - "@ + all@[i as int].spec_name());
                }
            }
            assert(m1 =~= m2);
        }
        i += 1;
    }
    proof {
        assert(all@.take(all@.len() as int) =~= all@);
    }
    join_strings(&lines, "\n")
}

} // verus!
