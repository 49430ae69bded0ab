//! The serializer's witness builder: a related, single-row trace builder
//! whose columns carry a foreign-field element being decomposed into
//! limbs, together with the lookup bookkeeping (per-table multiplicities
//! and per-row lookup records) that range-checks the limbs.
//!
//! Only private witness columns are owned by the generic write path; the
//! lookup-related column kinds are populated by the lookup subsystem alone,
//! and writes to them are rejected.  The builder is instantiated over the
//! crate's reference scalar field.

use vstd::prelude::*;
use vstd::arithmetic::power2::pow2;

use crate::columns::TraceError;
use crate::field::{BigInt, Fp, FpBackend, F65521, SMALL_MODULUS};
use crate::witness::bitmask_value;

verus! {

/// Number of columns of the serializer's circuit: the three 88-bit input
/// limbs, twenty 4-bit intermediate limbs, and seventeen 15-bit converted
/// limbs.
pub const SER_N_COLUMNS: usize = 40;

/// The scalar field the serializer is instantiated over.
pub type SerField = Fp<F65521, 1>;

/// The value a field element of the serializer denotes.
pub open spec fn fval(f: SerField) -> nat {
    <F65521 as FpBackend<1>>::rep_value(f.0.limbs@)
}

/// The values of a column vector of the serializer.
pub open spec fn fvals(s: Seq<SerField>) -> Seq<nat> {
    Seq::new(s.len(), |i: int| fval(s[i]))
}

/// Identifies a cell of the serializer's trace.  Only the `X` kind is a
/// plain witness cell; the others belong to the lookup argument.
#[derive(Clone, Copy, Debug, PartialEq, Eq, Structural)]
pub enum Column {
    /// A private witness column.
    X(usize),
    /// The partial sum of a lookup accumulator.
    LookupPartialSum(usize),
    /// The multiplicity column of a lookup table.
    LookupMultiplicity(usize),
    /// The running aggregation of the lookup argument.
    LookupAggregation,
    /// A fixed lookup table column.
    LookupFixedTable(usize),
}

/// The fixed lookup tables the serializer range-checks against.
#[derive(Clone, Copy, Debug, PartialEq, Eq, Structural)]
pub enum LookupTable {
    /// All values of 15 bits.
    RangeCheck15,
    /// All values of 4 bits.
    RangeCheck4,
}

/// How many lookup tables there are.
pub const N_LOOKUP_TABLES: usize = 2;

impl LookupTable {
    /// The number of entries of the table.
    pub open spec fn spec_length(self) -> nat {
        match self {
            LookupTable::RangeCheck15 => 0x8000,
            LookupTable::RangeCheck4 => 0x10,
        }
    }

    /// The number of entries of the table.
    pub fn length(&self) -> (r: usize)
        ensures
            r == self.spec_length(),
    {
        match self {
            LookupTable::RangeCheck15 => 0x8000,
            LookupTable::RangeCheck4 => 0x10,
        }
    }

    /// The position of the table among all tables.
    pub open spec fn spec_index(self) -> int {
        match self {
            LookupTable::RangeCheck15 => 0,
            LookupTable::RangeCheck4 => 1,
        }
    }

    /// The position of the table among all tables.
    pub fn table_index(&self) -> (r: usize)
        ensures
            r == self.spec_index(),
    {
        match self {
            LookupTable::RangeCheck15 => 0,
            LookupTable::RangeCheck4 => 1,
        }
    }

    /// The table at the given position.
    pub open spec fn spec_at(t: int) -> LookupTable {
        if t == 0 {
            LookupTable::RangeCheck15
        } else {
            LookupTable::RangeCheck4
        }
    }
}

/// One recorded lookup: which table, with which numerator, on which value.
pub struct Lookup {
    /// The table looked into.
    pub table_id: LookupTable,
    /// The numerator the lookup contributes to the argument.
    pub numerator: SerField,
    /// The value looked up.
    pub value: Vec<SerField>,
}

/// The single-row witness of the serializer's circuit.
pub struct Witness {
    /// One cell per column.
    pub cols: Vec<SerField>,
}

/// Environment for the serializer interpreter.
pub struct WitnessBuilderEnv {
    /// Single-row witness columns, in raw form.
    pub witness: Witness,
    /// The lookup multiplicities, one vector per table, one counter per
    /// table entry.
    pub lookup_multiplicities: Vec<Vec<SerField>>,
    /// The lookups recorded so far, one vector per table.
    pub lookups: Vec<Vec<Lookup>>,
}

impl WitnessBuilderEnv {
    /// Shape invariant: the witness row spans the columns, and each table
    /// has a multiplicity counter per entry.
    pub open spec fn wf(&self) -> bool {
        &&& self.witness.cols.len() == SER_N_COLUMNS
        &&& forall|i: int| 0 <= i < SER_N_COLUMNS ==> (#[trigger] self.witness.cols@[i]).wf()
        &&& self.lookup_multiplicities.len() == N_LOOKUP_TABLES
        &&& forall|t: int|
            0 <= t < N_LOOKUP_TABLES ==> (#[trigger] self.lookup_multiplicities@[t]).len()
                == LookupTable::spec_at(t).spec_length()
        &&& forall|t: int, i: int|
            0 <= t < N_LOOKUP_TABLES && 0 <= i < self.lookup_multiplicities@[t]@.len() ==> (
            #[trigger] self.lookup_multiplicities@[t]@[i]).wf()
        &&& self.lookups.len() == N_LOOKUP_TABLES
    }

    /// The values of the witness row.
    pub open spec fn witness_values(&self) -> Seq<nat> {
        fvals(self.witness.cols@)
    }

    /// Creates a fresh environment: a zeroed witness row, zeroed
    /// multiplicities for every table, and no recorded lookups.
    pub fn create() -> (r: Self)
        ensures
            r.wf(),
            forall|i: int| 0 <= i < SER_N_COLUMNS ==> r.witness_values()[i] == 0,
            forall|t: int, i: int|
                0 <= t < N_LOOKUP_TABLES && 0 <= i < r.lookup_multiplicities@[t]@.len()
                    ==> fval(#[trigger] r.lookup_multiplicities@[t]@[i]) == 0,
            forall|t: int| 0 <= t < N_LOOKUP_TABLES ==> (#[trigger] r.lookups@[t])@.len() == 0,
    {
        let mut cols: Vec<SerField> = Vec::new();
        while cols.len() < SER_N_COLUMNS
            invariant
                cols@.len() <= SER_N_COLUMNS,
                forall|i: int|
                    0 <= i < cols@.len() ==> (#[trigger] cols@[i]).wf() && fval(cols@[i]) == 0,
            decreases SER_N_COLUMNS - cols.len(),
        {
            cols.push(Fp::<F65521, 1>::zero());
        }

        let mut lookup_multiplicities: Vec<Vec<SerField>> = Vec::new();
        let mut lookups: Vec<Vec<Lookup>> = Vec::new();
        let mut t: usize = 0;
        while t < N_LOOKUP_TABLES
            invariant
                t <= N_LOOKUP_TABLES,
                lookup_multiplicities@.len() == t,
                lookups@.len() == t,
                forall|tt: int|
                    0 <= tt < t ==> (#[trigger] lookup_multiplicities@[tt]).len()
                        == LookupTable::spec_at(tt).spec_length(),
                forall|tt: int, i: int|
                    0 <= tt < t && 0 <= i < lookup_multiplicities@[tt]@.len() ==> (
                    #[trigger] lookup_multiplicities@[tt]@[i]).wf() && fval(
                        lookup_multiplicities@[tt]@[i],
                    ) == 0,
                forall|tt: int| 0 <= tt < t ==> (#[trigger] lookups@[tt])@.len() == 0,
            decreases N_LOOKUP_TABLES - t,
        {
            let table = if t == 0 {
                LookupTable::RangeCheck15
            } else {
                LookupTable::RangeCheck4
            };
            let len = table.length();
            let mut counters: Vec<SerField> = Vec::new();
            while counters.len() < len
                invariant
                    counters@.len() <= len,
                    forall|i: int|
                        0 <= i < counters@.len() ==> (#[trigger] counters@[i]).wf() && fval(
                            counters@[i],
                        ) == 0,
                decreases len - counters.len(),
            {
                counters.push(Fp::<F65521, 1>::zero());
            }
            lookup_multiplicities.push(counters);
            lookups.push(Vec::new());
            t = t + 1;
        }

        WitnessBuilderEnv { witness: Witness { cols }, lookup_multiplicities, lookups }
    }

    /// Stores `value` in the witness cell addressed by `position`.  The
    /// lookup-related column kinds are not owned by this write path: a
    /// write to any of them is rejected as a type mismatch.
    pub fn write_column(&mut self, position: Column, value: SerField) -> (r: Result<
        (),
        TraceError,
    >)
        requires
            old(self).wf(),
            value.wf(),
            position matches Column::X(i) ==> i < SER_N_COLUMNS,
        ensures
            final(self).wf(),
            r.is_ok() <==> position matches Column::X(_),
            (position matches Column::X(i) ==> {
                &&& *final(self) == (WitnessBuilderEnv {
                    witness: final(self).witness,
                    ..*old(self)
                })
                &&& final(self).witness_values() == old(self).witness_values().update(
                    i as int,
                    fval(value),
                )
            }),
            !(position matches Column::X(_)) ==> *final(self) == *old(self) && r == Err::<
                (),
                TraceError,
            >(TraceError::TypeMismatch),
    {
        match position {
            Column::X(i) => {
                self.witness.cols[i] = value;
                proof {
                    assert(self.witness_values() =~= old(self).witness_values().update(
                        i as int,
                        fval(value),
                    ));
                }
                Ok(())
            },
            _ => Err(TraceError::TypeMismatch),
        }
    }

    /// Reads the witness cell addressed by `ix`.  Only plain witness
    /// columns can be read through this path.
    pub fn read_column(&self, ix: Column) -> (r: SerField)
        requires
            self.wf(),
            ix matches Column::X(i) && i < SER_N_COLUMNS,
        ensures
            r.wf(),
            fval(r) == self.witness_values()[ix->X_0 as int],
    {
        match ix {
            Column::X(i) => self.witness.cols[i].clone(),
            _ => {
                proof {
                    assert(false);
                }
                Fp::<F65521, 1>::zero()
            },
        }
    }

    /// Lifts a literal field element into the variable domain.
    pub fn constant(value: SerField) -> (r: SerField)
        ensures
            r == value,
    {
        value
    }

    /// Records a constraint by checking it on the spot: the constraint
    /// expression must evaluate to zero on the current row.
    pub fn add_constraint(&mut self, cst: SerField) -> (r: Result<(), TraceError>)
        requires
            old(self).wf(),
            cst.wf(),
        ensures
            final(self).wf(),
            *final(self) == *old(self),
            r.is_ok() <==> fval(cst) == 0,
            !r.is_ok() ==> r == Err::<(), TraceError>(TraceError::Soundness),
    {
        if cst.is_zero() {
            Ok(())
        } else {
            Err(TraceError::Soundness)
        }
    }

    /// Copies `x` into the witness cell at `position` and returns it.
    pub fn copy(&mut self, x: &SerField, position: Column) -> (r: Result<SerField, TraceError>)
        requires
            old(self).wf(),
            x.wf(),
            position matches Column::X(i) ==> i < SER_N_COLUMNS,
        ensures
            final(self).wf(),
            r.is_ok() <==> position matches Column::X(_),
            (position matches Column::X(i) ==> {
                &&& *final(self) == (WitnessBuilderEnv {
                    witness: final(self).witness,
                    ..*old(self)
                })
                &&& final(self).witness_values() == old(self).witness_values().update(
                    i as int,
                    fval(*x),
                )
                &&& (r matches Ok(w) ==> fval(w) == fval(*x))
            }),
            !(position matches Column::X(_)) ==> *final(self) == *old(self) && r == Err::<
                SerField,
                TraceError,
            >(TraceError::TypeMismatch),
    {
        let copied = x.clone();
        match self.write_column(position, copied) {
            Ok(_) => Ok(x.clone()),
            Err(e) => Err(e),
        }
    }

    /// Clears the recorded lookups of every table; the multiplicities
    /// accumulated so far are kept.
    pub fn reset(&mut self)
        requires
            old(self).wf(),
        ensures
            final(self).wf(),
            *final(self) == (WitnessBuilderEnv { lookups: final(self).lookups, ..*old(self) }),
            final(self).lookups@.len() == N_LOOKUP_TABLES,
            forall|t: int|
                0 <= t < N_LOOKUP_TABLES ==> (#[trigger] final(self).lookups@[t])@.len() == 0,
    {
        let mut t: usize = 0;
        while t < N_LOOKUP_TABLES
            invariant
                t <= N_LOOKUP_TABLES,
                *self == (WitnessBuilderEnv { lookups: self.lookups, ..*old(self) }),
                self.lookups@.len() == N_LOOKUP_TABLES,
                forall|tt: int| 0 <= tt < t ==> (#[trigger] self.lookups@[tt])@.len() == 0,
            decreases N_LOOKUP_TABLES - t,
        {
            self.lookups[t] = Vec::new();
            t = t + 1;
        }
    }

    /// Records a lookup of `value` into `table_id`: bumps the value's
    /// multiplicity counter and appends a lookup record with numerator one.
    /// A value outside the table is a soundness failure.
    pub fn lookup(&mut self, table_id: LookupTable, value: &SerField) -> (r: Result<
        (),
        TraceError,
    >)
        requires
            old(self).wf(),
            value.wf(),
        ensures
            final(self).wf(),
            r.is_ok() <==> fval(*value) < table_id.spec_length(),
            r.is_ok() ==> {
                &&& *final(self) == (WitnessBuilderEnv {
                    lookup_multiplicities: final(self).lookup_multiplicities,
                    lookups: final(self).lookups,
                    ..*old(self)
                })
                &&& fval(
                    final(self).lookup_multiplicities@[table_id.spec_index()]@[fval(*value) as int],
                ) == (fval(
                    old(self).lookup_multiplicities@[table_id.spec_index()]@[fval(*value) as int],
                ) + 1) % (SMALL_MODULUS as nat)
                &&& forall|t: int, i: int|
                    0 <= t < N_LOOKUP_TABLES && 0 <= i < old(self).lookup_multiplicities@[t]@.len()
                        && !(t == table_id.spec_index() && i == fval(*value) as int)
                        ==> #[trigger] final(self).lookup_multiplicities@[t]@[i]
                        == old(self).lookup_multiplicities@[t]@[i]
                &&& final(self).lookups@[table_id.spec_index()]@.len()
                    == old(self).lookups@[table_id.spec_index()]@.len() + 1
                &&& forall|t: int|
                    0 <= t < N_LOOKUP_TABLES && t != table_id.spec_index()
                        ==> #[trigger] final(self).lookups@[t] == old(self).lookups@[t]
            },
            !r.is_ok() ==> *final(self) == *old(self) && r == Err::<(), TraceError>(
                TraceError::Soundness,
            ),
    {
        let ix = self.ix_by_value(table_id, value);
        match ix {
            Some(ix) => {
                let t = table_id.table_index();
                let one = Fp::<F65521, 1>::one();
                let bumped = self.lookup_multiplicities[t][ix].clone().add(&one);
                self.lookup_multiplicities[t][ix] = bumped;
                let record = Lookup { table_id, numerator: one, value: vec![value.clone()] };
                self.lookups[t].push(record);
                Ok(())
            },
            None => Err(TraceError::Soundness),
        }
    }

    /// The position of a value inside a range-check table: the value
    /// itself, if the table contains it.
    fn ix_by_value(&self, table_id: LookupTable, value: &SerField) -> (r: Option<usize>)
        requires
            self.wf(),
            value.wf(),
        ensures
            match r {
                Some(ix) => fval(*value) < table_id.spec_length() && ix == fval(*value),
                None => fval(*value) >= table_id.spec_length(),
            },
    {
        let v = value.0.limbs[0];
        let len = table_id.length();
        if (v as usize) < len {
            Some(v as usize)
        } else {
            None
        }
    }

    /// Returns the bits `[lowest_bit, highest_bit)` of `x`, big-endian bit
    /// numbering, reduced into the field and copied into the witness cell
    /// at `position`.  The window is at most the 16-bit limb granularity
    /// and must lie within the field element's limb.
    pub fn bitmask_be(
        &mut self,
        x: &SerField,
        highest_bit: u32,
        lowest_bit: u32,
        position: Column,
    ) -> (r: Result<SerField, TraceError>)
        requires
            old(self).wf(),
            x.wf(),
            lowest_bit <= highest_bit,
            lowest_bit < 32,
            highest_bit - lowest_bit <= 16,
            highest_bit <= 32,
            position matches Column::X(i) ==> i < SER_N_COLUMNS,
        ensures
            final(self).wf(),
            r.is_ok() <==> position matches Column::X(_),
            (position matches Column::X(i) ==> {
                &&& *final(self) == (WitnessBuilderEnv {
                    witness: final(self).witness,
                    ..*old(self)
                })
                &&& final(self).witness_values() == old(self).witness_values().update(
                    i as int,
                    bitmask_value(fval(*x), highest_bit as nat, lowest_bit as nat) % (
                    SMALL_MODULUS as nat),
                )
                &&& (r matches Ok(w) ==> fval(w) == bitmask_value(
                    fval(*x),
                    highest_bit as nat,
                    lowest_bit as nat,
                ) % (SMALL_MODULUS as nat))
            }),
            !(position matches Column::X(_)) ==> *final(self) == *old(self) && r == Err::<
                SerField,
                TraceError,
            >(TraceError::TypeMismatch),
    {
        let diff = highest_bit - lowest_bit;
        proof {
            vstd::arithmetic::power2::lemma2_to64();
            vstd::arithmetic::power2::lemma_pow2_pos(lowest_bit as nat);
            vstd::arithmetic::power2::lemma_pow2_pos(diff as nat);
            if lowest_bit < 31 {
                vstd::arithmetic::power2::lemma_pow2_strictly_increases(lowest_bit as nat, 31);
            }
            vstd::bits::lemma_u32_shl_is_mul(1u32, lowest_bit);
            vstd::arithmetic::power2::lemma_pow2_strictly_increases(diff as nat, 31);
            vstd::bits::lemma_u32_shl_is_mul(1u32, diff);
            vstd::arithmetic::mul::lemma_mul_basics(pow2(lowest_bit as nat) as int);
            vstd::arithmetic::mul::lemma_mul_basics(pow2(diff as nat) as int);
        }
        let v = x.0.limbs[0];
        let shifted = v / (1u32 << lowest_bit);
        let mut res = shifted % (1u32 << diff);
        if res >= SMALL_MODULUS {
            res = res - SMALL_MODULUS;
            proof {
                vstd::arithmetic::div_mod::lemma_mod_add_multiples_vanish(
                    res as int,
                    SMALL_MODULUS as int,
                );
                vstd::arithmetic::div_mod::lemma_small_mod(res as nat, SMALL_MODULUS as nat);
            }
        } else {
            proof {
                vstd::arithmetic::div_mod::lemma_small_mod(res as nat, SMALL_MODULUS as nat);
            }
        }
        let reduced = Fp::<F65521, 1>(BigInt { limbs: vec![res] }, core::marker::PhantomData);
        match self.write_column(position, reduced) {
            Ok(_) => Ok(Fp(BigInt { limbs: vec![res] }, core::marker::PhantomData)),
            Err(e) => Err(e),
        }
    }

    /// The multiplicity column of a range-check table over a domain of the
    /// given size: the accumulated counters, padded with the dummy value
    /// `-1` and closed with the number of dummy entries, so the column
    /// spans the domain exactly.
    pub fn get_lookup_multiplicities(&self, domain_size: usize, table_id: LookupTable) -> (r: Vec<
        SerField,
    >)
        requires
            self.wf(),
            table_id.spec_length() <= domain_size,
        ensures
            r@.len() == domain_size,
            forall|i: int|
                0 <= i < table_id.spec_length() ==> fval(#[trigger] r@[i]) == fval(
                    self.lookup_multiplicities@[table_id.spec_index()]@[i],
                ),
            table_id.spec_length() < domain_size ==> {
                &&& forall|i: int|
                    table_id.spec_length() <= i < domain_size - 1 ==> fval(#[trigger] r@[i]) == (
                    SMALL_MODULUS - 1) as nat
                &&& fval(r@[domain_size - 1]) == (domain_size - table_id.spec_length() - 1) % (
                SMALL_MODULUS as int)
            },
    {
        let t = table_id.table_index();
        let len = table_id.length();
        let mut m: Vec<SerField> = Vec::new();
        let mut i: usize = 0;
        while i < len
            invariant
                self.wf(),
                i <= len,
                len == table_id.spec_length(),
                t == table_id.spec_index(),
                m@.len() == i,
                forall|j: int|
                    0 <= j < i ==> (#[trigger] m@[j]).wf() && fval(m@[j]) == fval(
                        self.lookup_multiplicities@[t as int]@[j],
                    ),
            decreases len - i,
        {
            m.push(self.lookup_multiplicities[t][i].clone());
            i = i + 1;
        }
        if len < domain_size {
            let n_repeated_dummy_value = domain_size - len - 1;
            let dummy = Fp::<F65521, 1>(
                BigInt { limbs: vec![SMALL_MODULUS - 1] },
                core::marker::PhantomData,
            );
            while m.len() < domain_size - 1
                invariant
                    self.wf(),
                    len <= m@.len() <= domain_size - 1,
                    len == table_id.spec_length(),
                    t == table_id.spec_index(),
                    dummy.wf() && fval(dummy) == (SMALL_MODULUS - 1) as nat,
                    forall|j: int|
                        0 <= j < len ==> (#[trigger] m@[j]).wf() && fval(m@[j]) == fval(
                            self.lookup_multiplicities@[t as int]@[j],
                        ),
                    forall|j: int|
                        len <= j < m@.len() ==> (#[trigger] m@[j]).wf() && fval(m@[j]) == (
                        SMALL_MODULUS - 1) as nat,
                decreases domain_size - m.len(),
            {
                m.push(dummy.clone());
            }
            let closing = (n_repeated_dummy_value as u64) % (SMALL_MODULUS as u64);
            m.push(
                Fp::<F65521, 1>(
                    BigInt { limbs: vec![closing as u32] },
                    core::marker::PhantomData,
                ),
            );
        }
        m
    }
}

} // verus!
