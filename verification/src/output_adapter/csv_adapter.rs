//! A run as comma-separated values.
//!
//! The table has one header row and one row for each snapshot. Its first
//! column is the time, written with one digit after the decimal point; then
//! come, for each body in the order in which the simulation declares them,
//! the components of its position.

use crate::number::Real;
use crate::simulation::{Body, BodyMap, BodyView, Simulation};
use vstd::prelude::*;
use vstd::string::StringExecFns;

verus! {

/// The character that stands for the digit `d`.
pub open spec fn digit_char(d: nat) -> char {
    ((48 + d) as u8) as char
}

/// `n` written in decimal notation, without leading zeros.
pub open spec fn decimal_text(n: nat) -> Seq<char>
    decreases n,
{
    if n < 10 {
        seq![digit_char(n)]
    } else {
        decimal_text(n / 10).push(digit_char(n % 10))
    }
}

/// The header of one body's columns: `label.1,label.2,...,label.n`. There
/// is always a first column, also for a body of dimension zero.
pub open spec fn body_header_text(label: Seq<char>, n: nat) -> Seq<char>
    decreases n,
{
    if n <= 1 {
        label + "."@ + decimal_text(1)
    } else {
        body_header_text(label, (n - 1) as nat) + ","@ + label + "."@ + decimal_text(n)
    }
}

/// The header row before the columns of the bodies from position `k` on.
pub open spec fn headers_text<T>(bodies: Seq<BodyView<T>>, k: nat) -> Seq<char>
    decreases k,
{
    if k == 0 {
        "t"@
    } else {
        headers_text(bodies, (k - 1) as nat) + ","@ + body_header_text(
            bodies[k - 1].label,
            bodies[k - 1].position.len(),
        )
    }
}

/// The first `n` components of a position, each after a comma.
pub open spec fn body_data_text<T: Real>(position: Seq<T>, n: nat) -> Seq<char>
    decreases n,
{
    if n == 0 {
        Seq::empty()
    } else {
        body_data_text(position, (n - 1) as nat) + ","@ + position[n - 1].text_spec()@
    }
}

/// A row of the table up to the `k`-th label of `order`: the time with one
/// digit after the decimal point, then the positions of the bodies that
/// `order` names. A label that names no body of the snapshot is passed
/// over.
pub open spec fn body_row_text<T: Real>(
    t: T,
    bodies: Map<Seq<char>, BodyView<T>>,
    order: Seq<Seq<char>>,
    k: nat,
) -> Seq<char>
    decreases k,
{
    if k == 0 {
        t.fixed_spec(1)@
    } else {
        let before = body_row_text(t, bodies, order, (k - 1) as nat);
        let label = order[k - 1];
        if bodies.dom().contains(label) {
            before + body_data_text(bodies[label].position, bodies[label].position.len())
        } else {
            before
        }
    }
}

/// The digit `d` as a string.
fn digit_str(d: usize) -> (r: &'static str)
    requires
        d < 10,
    ensures
        r@ == seq![digit_char(d as nat)],
{
    proof {
        reveal_strlit("0");
        reveal_strlit("1");
        reveal_strlit("2");
        reveal_strlit("3");
        reveal_strlit("4");
        reveal_strlit("5");
        reveal_strlit("6");
        reveal_strlit("7");
        reveal_strlit("8");
        reveal_strlit("9");
    }
    let r = if d == 0 {
        "0"
    } else if d == 1 {
        "1"
    } else if d == 2 {
        "2"
    } else if d == 3 {
        "3"
    } else if d == 4 {
        "4"
    } else if d == 5 {
        "5"
    } else if d == 6 {
        "6"
    } else if d == 7 {
        "7"
    } else if d == 8 {
        "8"
    } else {
        "9"
    };
    assert(r@ =~= seq![digit_char(d as nat)]);
    r
}

/// `n` in decimal notation.
pub fn decimal_string(n: usize) -> (r: String)
    ensures
        r@ == decimal_text(n as nat),
    decreases n,
{
    if n < 10 {
        String::from_str(digit_str(n))
    } else {
        let mut r = decimal_string(n / 10);
        r.append(digit_str(n % 10));
        assert(r@ =~= decimal_text(n as nat));
        r
    }
}

/// Writes the runs of a simulation as comma-separated values.
pub struct CsvAdapter<'a, T, const N: usize> {
    simulation: &'a Simulation<T, N>,
}

impl<'a, T: Real, const N: usize> CsvAdapter<'a, T, N> {
    /// The simulation whose runs the adapter writes.
    pub closed spec fn simulation(&self) -> Simulation<T, N> {
        *self.simulation
    }

    /// An adapter for the runs of `simulation`.
    pub fn new(simulation: &'a Simulation<T, N>) -> (r: Self)
        ensures
            r.simulation() == *simulation,
    {
        Self { simulation }
    }

    /// The labels of the bodies in the order in which the simulation
    /// declares them. The columns of the table follow this order.
    pub fn order(&self) -> (r: Vec<String>)
        ensures
            r@.len() == self.simulation()@.bodies.len(),
            forall|i: int|
                0 <= i < r@.len() ==> (#[trigger] r@[i])@ == self.simulation()@.bodies[i].label,
    {
        let bodies = self.simulation.bodies();
        let mut order: Vec<String> = Vec::new();
        let mut i: usize = 0;
        while i < bodies.len()
            invariant
                0 <= i <= bodies.len(),
                bodies@.map_values(|b: Body<T, N>| b@) == self.simulation()@.bodies,
                order@.len() == i,
                forall|k: int|
                    0 <= k < i ==> (#[trigger] order@[k])@ == self.simulation()@.bodies[k].label,
            decreases bodies.len() - i,
        {
            assert(bodies@[i as int]@ == self.simulation()@.bodies[i as int]);
            order.push(bodies[i].label.clone());
            i += 1;
        }
        order
    }

    /// The header of the columns of `body`.
    pub fn body_header(body: &Body<T, N>) -> (r: String)
        ensures
            r@ == body_header_text(body@.label, N as nat),
    {
        let mut body_header = String::new();
        body_header.append(body.label.as_str());
        body_header.append(".");
        body_header.append(decimal_string(1).as_str());
        assert(body_header@ =~= body_header_text(body@.label, 1));
        let mut n: usize = 2;
        while n <= N
            invariant
                2 <= n,
                N >= 2 ==> n <= N + 1,
                N < 2 ==> n == 2,
                body_header@ == body_header_text(body@.label, (n - 1) as nat),
            decreases N + 1 - n,
        {
            body_header.append(",");
            body_header.append(body.label.as_str());
            body_header.append(".");
            body_header.append(decimal_string(n).as_str());
            assert(body_header@ =~= body_header_text(body@.label, n as nat));
            if n == usize::MAX {
                return body_header;
            }
            n += 1;
        }
        proof {
            if N < 2 {
                assert(n == 2);
                assert(body_header_text(body@.label, N as nat) == body_header_text(body@.label, 1));
            }
        }
        body_header
    }

    /// The position of `body_state`, each component after a comma.
    pub fn body_data(body_state: &Body<T, N>) -> (r: String)
        ensures
            r@ == body_data_text(body_state@.position, N as nat),
    {
        let mut body_data = String::new();
        let position = body_state.position;
        let mut n: usize = 0;
        while n < N
            invariant
                0 <= n <= N,
                position@ == body_state@.position,
                body_data@ == body_data_text(position@, n as nat),
            decreases N - n,
        {
            body_data.append(",");
            body_data.append(position[n].to_text().as_str());
            assert(body_data@ =~= body_data_text(position@, (n + 1) as nat));
            n += 1;
        }
        body_data
    }

    /// The header row of the table.
    pub fn headers(&self) -> (r: String)
        ensures
            r@ == headers_text(self.simulation()@.bodies, self.simulation()@.bodies.len()),
    {
        let mut headers = String::from_str("t");
        let bodies = self.simulation.bodies();
        let ghost views = self.simulation()@.bodies;
        let mut i: usize = 0;
        while i < bodies.len()
            invariant
                0 <= i <= bodies.len(),
                views == self.simulation()@.bodies,
                bodies@.map_values(|b: Body<T, N>| b@) == views,
                headers@ == headers_text(views, i as nat),
            decreases bodies.len() - i,
        {
            let body = &bodies[i];
            proof {
                assert(body@ == views[i as int]);
                body.position.lemma_dimension();
            }
            headers.append(",");
            headers.append(Self::body_header(body).as_str());
            assert(headers@ =~= headers_text(views, (i + 1) as nat));
            i += 1;
        }
        headers
    }

    /// The row of the snapshot `body_states` at the time `t`, with the
    /// bodies in the given order.
    pub fn body_row(&self, t: T, body_states: &BodyMap<T, N>, order: &Vec<String>) -> (r: String)
        ensures
            r@ == body_row_text(
                t,
                body_states@,
                order@.map_values(|label: String| label@),
                order@.len(),
            ),
    {
        let ghost labels = order@.map_values(|label: String| label@);
        let mut row = t.to_fixed(1);
        let mut i: usize = 0;
        while i < order.len()
            invariant
                0 <= i <= order.len(),
                labels == order@.map_values(|label: String| label@),
                row@ == body_row_text(t, body_states@, labels, i as nat),
            decreases order.len() - i,
        {
            if let Some(body) = body_states.get(order[i].as_str()) {
                proof {
                    body.position.lemma_dimension();
                }
                row.append(Self::body_data(body).as_str());
            }
            assert(row@ =~= body_row_text(t, body_states@, labels, (i + 1) as nat));
            i += 1;
        }
        row
    }
}

} // verus!
