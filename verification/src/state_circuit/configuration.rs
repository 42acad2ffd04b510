//! The steps in which the state circuit is configured.
//!
//! The circuit is put together from columns, and from chips that configure themselves. The
//! circuit decides what is asked for, in which order and with which arguments; whoever holds the
//! constraint system answers each [`Request`].
use crate::expression::{Advice, Column, Expression, Fixed};
use crate::field::Field;
use crate::state_circuit::config::{
    configs_agree, power_of_randomness, powers, BinaryNumberConfig, LexicographicOrderingConfig,
    SortKeysConfig, StateConfig,
};
use crate::state_circuit::{
    StateCircuitBase, N_BYTES_WORD, N_LIMBS_ACCOUNT_ADDRESS, N_LIMBS_ID, N_LIMBS_RW_COUNTER,
};
use vstd::pervasive::unreached;
use vstd::prelude::*;

verus! {

/// What a multiple-precision integer stands for.
#[derive(Clone, Copy, Debug, PartialEq, Eq, Structural)]
pub enum IntegerKind {
    U32,
    Address,
}

/// An expression that has to take a value of another expression.
#[derive(Debug)]
pub struct Lookup<F> {
    pub name: &'static str,
    pub input: Expression<F>,
    pub table: Expression<F>,
}

/// What is asked of the holder of the constraint system.
#[derive(Debug)]
pub enum Request<F, C, const QUICK_CHECK: bool> {
    /// A new fixed column.
    FixedColumn,
    /// The chip of the lookup tables.
    Lookups,
    /// A new advice column.
    AdviceColumn,
    /// The chip of a four-bit number.
    BinaryNumber { selector: Column<Fixed> },
    /// The chip of an integer of so many limbs.
    MultiplePrecisionInteger {
        selector: Column<Fixed>,
        lookups: C,
        kind: IntegerKind,
        limbs: usize,
    },
    /// The chip of a random linear combination of so many bytes.
    RandomLinearCombination {
        selector: Column<Fixed>,
        lookups: C,
        bytes: usize,
        power_of_randomness: Vec<Expression<F>>,
    },
    /// The chip that orders the rows.
    LexicographicOrder {
        sort_keys: SortKeysConfig<C>,
        lookups: C,
        power_of_randomness: Vec<Expression<F>>,
    },
    /// A gate with the constraints that are built from the queries of the circuit.
    Gate { name: &'static str, config: StateConfig<F, C, QUICK_CHECK> },
    /// A lookup of the first of each pair among the values of the second.
    LookupAny { name: &'static str, table_map: Vec<(Expression<F>, Expression<F>)> },
    /// Nothing is left.
    Done,
}

/// The answer to a request.
#[derive(Debug)]
pub enum Answer<F, C> {
    FixedColumn(Column<Fixed>),
    AdviceColumn(Column<Advice>),
    Chip(C),
    BinaryNumber(BinaryNumberConfig<4>),
    LexicographicOrder(LexicographicOrderingConfig<C>),
    /// The circuit gate has been made; these lookups go with its constraints.
    Gate(Vec<Lookup<F>>),
    /// The lookup has been made.
    LookupAny,
}

/// The number of answers that make up the configuration; the circuit gate comes after them.
pub const N_CONFIG_ANSWERS: usize = 12;

/// The answers to the requests, so far.
pub struct Configuration<F: Field, C: Copy, const QUICK_CHECK: bool> {
    answers: Vec<Answer<F, C>>,
    power_of_randomness: Vec<Expression<F>>,
    randomness: u128,
}

/// `answer` is one to the request after `answers`.
pub open spec fn fits<F, C>(answers: Seq<Answer<F, C>>, answer: Answer<F, C>) -> bool {
    let n = answers.len();
    if n == 0 {
        answer is FixedColumn
    } else if n == 1 {
        answer is Chip
    } else if n <= 5 {
        answer is AdviceColumn
    } else if n == 6 {
        answer is BinaryNumber
    } else if n <= 10 {
        answer is Chip
    } else if n == 11 {
        answer is LexicographicOrder
    } else if n == 12 {
        answer is Gate
    } else {
        &&& n - 13 < answers[12]->Gate_0@.len()
        &&& answer is LookupAny
    }
}

/// Each answer is one to its request.
pub open spec fn all_fit<F, C>(answers: Seq<Answer<F, C>>) -> bool {
    forall|i: int|
        0 <= i < answers.len() ==> fits(#[trigger] answers.take(i), answers[i])
}

/// The fixed column that selects the rows of the table.
pub open spec fn selector<F, C>(answers: Seq<Answer<F, C>>) -> Column<Fixed> {
    answers[0]->FixedColumn_0
}

/// The chip of the lookup tables.
pub open spec fn lookups<F, C>(answers: Seq<Answer<F, C>>) -> C {
    answers[1]->Chip_0
}

/// The sort keys.
pub open spec fn sort_keys<F, C>(answers: Seq<Answer<F, C>>) -> SortKeysConfig<C> {
    SortKeysConfig {
        tag: answers[6]->BinaryNumber_0,
        id: answers[7]->Chip_0,
        address: answers[8]->Chip_0,
        field_tag: answers[3]->AdviceColumn_0,
        storage_key: answers[9]->Chip_0,
        rw_counter: answers[10]->Chip_0,
    }
}

/// `config` is made of the answers to the first twelve requests.
pub open spec fn is_config<F: Field, C, const QUICK_CHECK: bool>(
    config: StateConfig<F, C, QUICK_CHECK>,
    answers: Seq<Answer<F, C>>,
    randomness: u128,
) -> bool {
    &&& config.selector == selector(answers)
    &&& config.sort_keys == sort_keys(answers)
    &&& config.is_write == answers[2]->AdviceColumn_0
    &&& config.value == answers[4]->AdviceColumn_0
    &&& config.initial_value == answers[5]->AdviceColumn_0
    &&& config.lexicographic_ordering == answers[11]->LexicographicOrder_0
    &&& config.lookups == lookups(answers)
    &&& config.power_of_randomness@ == powers::<F>(randomness)
}

/// `request` asks for an integer of the sort keys.
pub open spec fn asks_for_integer<F, C, const QUICK_CHECK: bool>(
    request: Request<F, C, QUICK_CHECK>,
    answers: Seq<Answer<F, C>>,
    kind: IntegerKind,
    limbs: usize,
) -> bool {
    request == (Request::<F, C, QUICK_CHECK>::MultiplePrecisionInteger {
        selector: selector(answers),
        lookups: lookups(answers),
        kind,
        limbs,
    })
}

/// `request` is the one after `answers`: the selector, the lookup tables, the four columns of a
/// row, the five sort keys, the ordering, the circuit gate, and its lookups one by one.
pub open spec fn is_request<F: Field, C, const QUICK_CHECK: bool>(
    request: Request<F, C, QUICK_CHECK>,
    answers: Seq<Answer<F, C>>,
    randomness: u128,
) -> bool {
    let n = answers.len();
    if n == 0 {
        request is FixedColumn
    } else if n == 1 {
        request is Lookups
    } else if n <= 5 {
        request is AdviceColumn
    } else if n == 6 {
        request == (Request::<F, C, QUICK_CHECK>::BinaryNumber { selector: selector(answers) })
    } else if n == 7 {
        asks_for_integer(request, answers, IntegerKind::U32, N_LIMBS_ID)
    } else if n == 8 {
        asks_for_integer(request, answers, IntegerKind::Address, N_LIMBS_ACCOUNT_ADDRESS)
    } else if n == 9 {
        &&& request is RandomLinearCombination
        &&& request->RandomLinearCombination_selector == selector(answers)
        &&& request->RandomLinearCombination_lookups == lookups(answers)
        &&& request->bytes == N_BYTES_WORD
        &&& request->RandomLinearCombination_power_of_randomness@ == powers::<F>(randomness)
    } else if n == 10 {
        asks_for_integer(request, answers, IntegerKind::U32, N_LIMBS_RW_COUNTER)
    } else if n == 11 {
        &&& request is LexicographicOrder
        &&& request->sort_keys == sort_keys(answers)
        &&& request->LexicographicOrder_lookups == lookups(answers)
        &&& request->LexicographicOrder_power_of_randomness@ == powers::<F>(randomness)
    } else if n == 12 {
        &&& request is Gate
        &&& request->Gate_name == "state circuit constraints"
        &&& is_config(request->config, answers, randomness)
    } else {
        let gate_lookups = answers[12]->Gate_0@;
        if n - 13 < gate_lookups.len() {
            let lookup = gate_lookups[n - 13];
            &&& request is LookupAny
            &&& request->LookupAny_name == lookup.name
            &&& request->table_map@ == seq![(lookup.input, lookup.table)]
        } else {
            request is Done
        }
    }
}

impl<F: Field, C: Copy, const QUICK_CHECK: bool> Configuration<F, C, QUICK_CHECK> {
    /// The answers so far are answers to the requests.
    #[verifier::type_invariant]
    spec fn wf(self) -> bool {
        &&& all_fit(self.answers@)
        &&& self.power_of_randomness@ == powers::<F>(self.randomness)
    }

    /// The answers so far.
    pub closed spec fn answers(self) -> Seq<Answer<F, C>> {
        self.answers@
    }

    /// The randomness whose powers the circuit uses.
    pub closed spec fn randomness(self) -> u128 {
        self.randomness
    }

    /// The start of the configuration; `randomness` is the one whose powers the circuit uses.
    pub fn new(randomness: u128) -> (r: Self)
        ensures
            r.answers() == Seq::<Answer<F, C>>::empty(),
            r.randomness() == randomness,
    {
        Configuration {
            answers: Vec::new(),
            power_of_randomness: power_of_randomness(randomness),
            randomness,
        }
    }

    /// The selector, once it is there.
    fn selector(&self) -> (r: Column<Fixed>)
        requires
            self.answers().len() > 0,
        ensures
            r == selector(self.answers()),
    {
        proof {
            use_type_invariant(self);
            assert(fits(self.answers@.take(0), self.answers@[0]));
        }
        match &self.answers[0] {
            Answer::FixedColumn(column) => *column,
            _ => unreached(),
        }
    }

    /// The advice column among the answers at `i`.
    fn advice(&self, i: usize) -> (r: Column<Advice>)
        requires
            2 <= i <= 5,
            i < self.answers().len(),
        ensures
            r == self.answers()[i as int]->AdviceColumn_0,
    {
        proof {
            use_type_invariant(self);
            assert(fits(self.answers@.take(i as int), self.answers@[i as int]));
        }
        match &self.answers[i] {
            Answer::AdviceColumn(column) => *column,
            _ => unreached(),
        }
    }

    /// The chip among the answers at `i`.
    fn chip(&self, i: usize) -> (r: C)
        requires
            i == 1 || 7 <= i <= 10,
            i < self.answers().len(),
        ensures
            r == self.answers()[i as int]->Chip_0,
    {
        proof {
            use_type_invariant(self);
            assert(fits(self.answers@.take(i as int), self.answers@[i as int]));
        }
        match &self.answers[i] {
            Answer::Chip(chip) => *chip,
            _ => unreached(),
        }
    }

    /// The sort keys, once they are there.
    fn sort_keys(&self) -> (r: SortKeysConfig<C>)
        requires
            self.answers().len() > 10,
        ensures
            r == sort_keys(self.answers()),
    {
        proof {
            use_type_invariant(self);
            assert(fits(self.answers@.take(6), self.answers@[6]));
        }
        let tag: BinaryNumberConfig<4> = match &self.answers[6] {
            Answer::BinaryNumber(tag) => *tag,
            _ => unreached(),
        };
        SortKeysConfig {
            tag,
            id: self.chip(7),
            address: self.chip(8),
            field_tag: self.advice(3),
            storage_key: self.chip(9),
            rw_counter: self.chip(10),
        }
    }

    /// The powers of the randomness.
    fn powers(&self) -> (r: Vec<Expression<F>>)
        ensures
            r@ == powers::<F>(self.randomness()),
    {
        proof {
            use_type_invariant(self);
        }
        let copy = self.power_of_randomness.clone();
        assert(copy@ =~= self.power_of_randomness@);
        copy
    }

    /// The configuration of the circuit, once everything is there.
    pub fn config(&self) -> (r: Option<StateConfig<F, C, QUICK_CHECK>>)
        ensures
            r is Some <==> self.answers().len() >= N_CONFIG_ANSWERS,
            r matches Some(config) ==> is_config(config, self.answers(), self.randomness()),
            all_fit(self.answers()),
    {
        proof {
            use_type_invariant(self);
        }
        if self.answers.len() < N_CONFIG_ANSWERS {
            return None;
        }
        proof {
            use_type_invariant(self);
            assert(fits(self.answers@.take(11), self.answers@[11]));
        }
        let lexicographic_ordering: LexicographicOrderingConfig<C> = match &self.answers[11] {
            Answer::LexicographicOrder(config) => *config,
            _ => unreached(),
        };
        Some(
            StateConfig {
                selector: self.selector(),
                sort_keys: self.sort_keys(),
                is_write: self.advice(2),
                value: self.advice(4),
                initial_value: self.advice(5),
                lexicographic_ordering,
                lookups: self.chip(1),
                power_of_randomness: self.powers(),
            },
        )
    }

    /// A request for an integer of the sort keys.
    fn integer(&self, kind: IntegerKind, limbs: usize) -> (r: Request<F, C, QUICK_CHECK>)
        requires
            self.answers().len() > 1,
        ensures
            asks_for_integer(r, self.answers(), kind, limbs),
    {
        Request::MultiplePrecisionInteger {
            selector: self.selector(),
            lookups: self.chip(1),
            kind,
            limbs,
        }
    }

    /// The lookups that go with the constraints, once the circuit gate is made.
    fn gate_lookups(&self) -> (r: &Vec<Lookup<F>>)
        requires
            self.answers().len() > 12,
        ensures
            *r == self.answers()[12]->Gate_0,
    {
        proof {
            use_type_invariant(self);
            assert(fits(self.answers@.take(12), self.answers@[12]));
        }
        match &self.answers[12] {
            Answer::Gate(lookups) => lookups,
            _ => unreached(),
        }
    }

    /// What is to be answered next.
    pub fn request(&self) -> (r: Request<F, C, QUICK_CHECK>)
        ensures
            is_request(r, self.answers(), self.randomness()),
            all_fit(self.answers()),
    {
        proof {
            use_type_invariant(self);
        }
        let n: usize = self.answers.len();
        if n == 0 {
            Request::FixedColumn
        } else if n == 1 {
            Request::Lookups
        } else if n <= 5 {
            Request::AdviceColumn
        } else if n == 6 {
            Request::BinaryNumber { selector: self.selector() }
        } else if n == 7 {
            self.integer(IntegerKind::U32, N_LIMBS_ID)
        } else if n == 8 {
            self.integer(IntegerKind::Address, N_LIMBS_ACCOUNT_ADDRESS)
        } else if n == 9 {
            Request::RandomLinearCombination {
                selector: self.selector(),
                lookups: self.chip(1),
                bytes: N_BYTES_WORD,
                power_of_randomness: self.powers(),
            }
        } else if n == 10 {
            self.integer(IntegerKind::U32, N_LIMBS_RW_COUNTER)
        } else if n == 11 {
            Request::LexicographicOrder {
                sort_keys: self.sort_keys(),
                lookups: self.chip(1),
                power_of_randomness: self.powers(),
            }
        } else if n == 12 {
            match self.config() {
                Some(config) => Request::Gate { name: "state circuit constraints", config },
                None => unreached(),
            }
        } else {
            let gate_lookups = self.gate_lookups();
            if n - 13 < gate_lookups.len() {
                let lookup = &gate_lookups[n - 13];
                let mut table_map: Vec<(Expression<F>, Expression<F>)> = Vec::new();
                table_map.push((lookup.input.clone(), lookup.table.clone()));
                Request::LookupAny { name: lookup.name, table_map }
            } else {
                Request::Done
            }
        }
    }

    /// Takes the answer to the present request, and says so; an answer to another request is
    /// not taken.
    pub fn answer(&mut self, answer: Answer<F, C>) -> (taken: bool)
        ensures
            taken == fits(old(self).answers(), answer),
            taken ==> final(self).answers() == old(self).answers().push(answer),
            !taken ==> *final(self) == *old(self),
            final(self).randomness() == old(self).randomness(),
    {
        let n: usize = self.answers.len();
        let taken: bool = match &answer {
            Answer::FixedColumn(_) => n == 0,
            Answer::AdviceColumn(_) => 2 <= n && n <= 5,
            Answer::Chip(_) => n == 1 || (7 <= n && n <= 10),
            Answer::BinaryNumber(_) => n == 6,
            Answer::LexicographicOrder(_) => n == 11,
            Answer::Gate(_) => n == 12,
            Answer::LookupAny => n > 12 && n - 13 < self.gate_lookups().len(),
        };
        if taken {
            let mut answers: Vec<Answer<F, C>> = Vec::new();
            proof {
                use_type_invariant(&*self);
            }
            std::mem::swap(&mut answers, &mut self.answers);
            let ghost before = answers@;
            answers.push(answer);
            proof {
                assert forall|i: int| 0 <= i < answers@.len() implies fits(
                    #[trigger] answers@.take(i),
                    answers@[i],
                ) by {
                    if i < before.len() {
                        assert(answers@.take(i) == before.take(i));
                        assert(fits(before.take(i), before[i]));
                    } else {
                        assert(answers@.take(i) == before);
                    }
                }
            }
            self.answers = answers;
        }
        taken
    }
}

/// `request` asks for a new instance column.
pub open spec fn asks_for_instance_column<F, C, const QUICK_CHECK: bool>(
    request: Request<F, C, QUICK_CHECK>,
) -> bool {
    match request {
        Request::FixedColumn => false,
        Request::Lookups => false,
        Request::AdviceColumn => false,
        Request::BinaryNumber { .. } => false,
        Request::MultiplePrecisionInteger { .. } => false,
        Request::RandomLinearCombination { .. } => false,
        Request::LexicographicOrder { .. } => false,
        Request::Gate { .. } => false,
        Request::LookupAny { .. } => false,
        Request::Done => false,
    }
}

/// The configuration and the instance agree: the instance columns that are asked for over a whole
/// configuration, the one with `requests` and `answers`, are as many as the instance of any
/// circuit has, which is none.
pub proof fn law_instance_columns_agree<
    F: Field,
    C,
    const QUICK_CHECK: bool,
    const N_ROWS: usize,
>(
    circuit: StateCircuitBase<F, QUICK_CHECK, N_ROWS>,
    requests: Seq<Request<F, C, QUICK_CHECK>>,
    answers: Seq<Answer<F, C>>,
    randomness: u128,
)
    requires
        all_fit(answers),
        requests.len() == answers.len() + 1,
        forall|i: int|
            0 <= i <= answers.len() ==> is_request(
                #[trigger] requests[i],
                answers.take(i),
                randomness,
            ),
        requests.last() is Done,
    ensures
        requests.filter(
            |request: Request<F, C, QUICK_CHECK>| asks_for_instance_column(request),
        ).len() == circuit.spec_instance().len(),
        circuit.spec_instance().len() == 0,
{
    lemma_no_instance_column(requests);
}

/// No request asks for an instance column.
proof fn lemma_no_instance_column<F, C, const QUICK_CHECK: bool>(
    requests: Seq<Request<F, C, QUICK_CHECK>>,
)
    ensures
        requests.filter(
            |request: Request<F, C, QUICK_CHECK>| asks_for_instance_column(request),
        ).len() == 0,
    decreases requests.len(),
{
    reveal(Seq::filter);
    if requests.len() > 0 {
        lemma_no_instance_column(requests.drop_last());
    }
}

/// A request of the full circuit and one of the light circuit ask for the same.
pub open spec fn asks_alike<F, C>(full: Request<F, C, false>, light: Request<F, C, true>) -> bool {
    match full {
        Request::FixedColumn => light is FixedColumn,
        Request::Lookups => light is Lookups,
        Request::AdviceColumn => light is AdviceColumn,
        Request::BinaryNumber { selector } => light == (Request::<F, C, true>::BinaryNumber {
            selector,
        }),
        Request::MultiplePrecisionInteger { selector, lookups, kind, limbs } => light == (Request::<
            F,
            C,
            true,
        >::MultiplePrecisionInteger { selector, lookups, kind, limbs }),
        Request::RandomLinearCombination { selector, lookups, bytes, power_of_randomness } => {
            &&& light is RandomLinearCombination
            &&& light->RandomLinearCombination_selector == selector
            &&& light->RandomLinearCombination_lookups == lookups
            &&& light->bytes == bytes
            &&& light->RandomLinearCombination_power_of_randomness@ == power_of_randomness@
        },
        Request::LexicographicOrder { sort_keys, lookups, power_of_randomness } => {
            &&& light is LexicographicOrder
            &&& light->sort_keys == sort_keys
            &&& light->LexicographicOrder_lookups == lookups
            &&& light->LexicographicOrder_power_of_randomness@ == power_of_randomness@
        },
        Request::Gate { name, config } => {
            &&& light is Gate
            &&& light->Gate_name == name
            &&& configs_agree(config, light->config)
        },
        Request::LookupAny { name, table_map } => {
            &&& light is LookupAny
            &&& light->LookupAny_name == name
            &&& light->table_map@ == table_map@
        },
        Request::Done => light is Done,
    }
}

/// After the same answers, and over the same randomness, the full circuit and the light one ask
/// for the same. The light circuit leaves out no constraint of its own: what it is spared is up to
/// the chips that configure themselves.
pub proof fn law_light_and_full_ask_alike<F: Field, C>(
    full: Request<F, C, false>,
    light: Request<F, C, true>,
    answers: Seq<Answer<F, C>>,
    randomness: u128,
)
    requires
        is_request(full, answers, randomness),
        is_request(light, answers, randomness),
    ensures
        asks_alike(full, light),
{
}

/// After the same answers, and over the same randomness, the full circuit and the light one come
/// to configurations that agree.
pub proof fn law_light_and_full_configs_agree<F: Field, C>(
    full: StateConfig<F, C, false>,
    light: StateConfig<F, C, true>,
    answers: Seq<Answer<F, C>>,
    randomness: u128,
)
    requires
        is_config(full, answers, randomness),
        is_config(light, answers, randomness),
    ensures
        configs_agree(full, light),
{
}

/// What the configuration is made of stays as it is while the circuit gate and its lookups are
/// made.
pub proof fn law_config_is_settled<F: Field, C, const QUICK_CHECK: bool>(
    config: StateConfig<F, C, QUICK_CHECK>,
    answers: Seq<Answer<F, C>>,
    randomness: u128,
)
    requires
        answers.len() >= N_CONFIG_ANSWERS,
    ensures
        is_config(config, answers, randomness) <==> is_config(
            config,
            answers.take(N_CONFIG_ANSWERS as int),
            randomness,
        ),
{
}

/// The configuration comes to its end after the twelve answers that make it up, the circuit gate,
/// and one answer for each of its lookups, and at no other time.
pub proof fn law_configuration_ends<F: Field, C, const QUICK_CHECK: bool>(
    request: Request<F, C, QUICK_CHECK>,
    answers: Seq<Answer<F, C>>,
    randomness: u128,
)
    requires
        all_fit(answers),
        is_request(request, answers, randomness),
    ensures
        request is Done <==> answers.len() > 12 && answers.len() == 13 + answers[12]->Gate_0@.len(),
        request is Done <==> forall|answer: Answer<F, C>| !#[trigger] fits(answers, answer),
{
    let n = answers.len() as int;
    if n > 13 {
        assert(fits(answers.take(n - 1), answers[n - 1]));
        assert(answers.take(n - 1)[12] == answers[12]);
    }
    if n > 12 {
        assert(request is Done <==> !fits(answers, Answer::LookupAny));
    } else {
        lemma_some_answer_fits(answers);
    }
}

/// Up to the circuit gate, every request has an answer.
proof fn lemma_some_answer_fits<F, C>(answers: Seq<Answer<F, C>>)
    requires
        answers.len() <= 12,
    ensures
        exists|answer: Answer<F, C>| fits(answers, answer),
{
    let n = answers.len();
    let answer: Answer<F, C> = if n == 0 {
        Answer::FixedColumn(arbitrary())
    } else if n == 1 || 7 <= n <= 10 {
        Answer::Chip(arbitrary())
    } else if n <= 5 {
        Answer::AdviceColumn(arbitrary())
    } else if n == 6 {
        Answer::BinaryNumber(arbitrary())
    } else if n == 11 {
        Answer::LexicographicOrder(arbitrary())
    } else {
        Answer::Gate(arbitrary())
    };
    assert(fits(answers, answer));
}

} // verus!
