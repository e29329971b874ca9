use arith_circuit::field::Field as _;
use arith_circuit::pallas::PallasBase;
use arith_circuit::step::StepCircuit;
use arith_circuit::table::Value as Witness;
use ff::{Field, PrimeField};
use halo2_proofs::circuit::{Layouter, SimpleFloorPlanner, Value};
use halo2_proofs::dev::{MockProver, VerifyFailure};
use halo2_proofs::pasta::Fp;
use halo2_proofs::plonk::{Advice, Circuit, Column, ConstraintSystem, Error, Expression, Selector};
use halo2_proofs::poly::Rotation;

struct Counter {
    values: Vec<Fp>,
}

#[derive(Clone)]
struct CounterConfig {
    q_enable: Selector,
    advice: Column<Advice>,
}

impl Circuit<Fp> for Counter {
    type Config = CounterConfig;
    type FloorPlanner = SimpleFloorPlanner;

    fn without_witnesses(&self) -> Self {
        Counter { values: self.values.iter().map(|_| Fp::ZERO).collect() }
    }

    fn configure(meta: &mut ConstraintSystem<Fp>) -> Self::Config {
        let q_enable = meta.complex_selector();
        let advice = meta.advice_column();
        meta.create_gate("step", |meta| {
            let curr = meta.query_advice(advice, Rotation::cur());
            let next = meta.query_advice(advice, Rotation::next());
            let q_enable = meta.query_selector(q_enable);
            vec![q_enable * (curr - next + Expression::Constant(Fp::ONE))]
        });
        CounterConfig { q_enable, advice }
    }

    fn synthesize(&self, config: Self::Config, mut layouter: impl Layouter<Fp>) -> Result<(), Error> {
        layouter.assign_region(
            || "steps",
            |mut region| {
                for (i, v) in self.values.iter().enumerate() {
                    region.assign_advice(|| "value", config.advice, i, || Value::known(*v))?;
                    if i + 1 < self.values.len() {
                        config.q_enable.enable(&mut region, i)?;
                    }
                }
                Ok(())
            },
        )
    }
}

/// The rows at which the mock prover finds the step gate broken.
fn rows_by_mock_prover(values: &[u64]) -> Vec<usize> {
    let circuit = Counter { values: values.iter().map(|v| Fp::from(*v)).collect() };
    let prover = MockProver::run(5, &circuit, vec![]).unwrap();
    match prover.verify() {
        Ok(()) => vec![],
        Err(failures) => failures
            .iter()
            .map(|f| match f {
                VerifyFailure::ConstraintNotSatisfied { location, .. } => {
                    let text = format!("{}", location);
                    let offset = text.rsplit("offset ").next().unwrap();
                    offset.trim_end_matches(|c: char| !c.is_ascii_digit()).parse().unwrap()
                }
                other => panic!("unexpected failure: {:?}", other),
            })
            .collect(),
    }
}

fn rows_by_library(values: &[u64]) -> Vec<usize> {
    let known = values.iter().map(|v| PallasBase::from_u64(*v)).collect::<Vec<_>>();
    let report = StepCircuit::new(values.len() - 1, Witness::known(known)).unwrap().run(32).unwrap();
    report.violations.iter().map(|v| v.row).collect()
}

#[test]
fn the_mock_prover_finds_the_same_rows() {
    let runs: [&[u64]; 6] = [
        &[1, 2, 3, 4, 5, 6],
        &[1, 2, 3, 9, 5, 6],
        &[7, 7, 7],
        &[0, 1, 2, 4],
        &[5, 1, 2, 3],
        &[u64::MAX - 1, u64::MAX, 0],
    ];
    for values in runs {
        assert_eq!(rows_by_library(values), rows_by_mock_prover(values), "{:?}", values);
    }
}

#[test]
fn the_library_computes_as_the_curve_library_does() {
    // a few elements spread over the field
    let mut seeds = vec![Fp::ZERO, Fp::ONE, -Fp::ONE, Fp::from(u64::MAX)];
    let mut x = Fp::from(0x9e37_79b9_7f4a_7c15);
    for _ in 0..6 {
        x = x.square() + Fp::from(3);
        seeds.push(x);
    }
    for a in &seeds {
        let la = PallasBase::from_bytes(a.to_repr()).unwrap();
        assert_eq!(la.to_bytes(), a.to_repr());
        assert_eq!(la.neg().to_bytes(), (-*a).to_repr());
        for b in &seeds {
            let lb = PallasBase::from_bytes(b.to_repr()).unwrap();
            assert_eq!(la.add(&lb).to_bytes(), (*a + *b).to_repr());
            assert_eq!(la.sub(&lb).to_bytes(), (*a - *b).to_repr());
            assert_eq!(la.mul(&lb).to_bytes(), (*a * *b).to_repr());
            assert_eq!(la.same(&lb), a == b);
        }
    }
}
