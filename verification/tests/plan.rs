use kvbench::error::ConfigError;
use kvbench::mix::OperationMix;
use kvbench::operation::Operation;
use kvbench::plan::{BenchPlan, Opt};
use kvbench::power::{is_power_of_two, next_power_of_two, power_of_two};
use kvbench::workload::{PrefillFraction, WorkloadKind, WorkloadSpec};

fn options(experiment: WorkloadKind, capacity: u8, threads: usize, ops_st: usize) -> Opt {
    Opt { experiment, delegation_no: 1, capacity, threads, ops_st }
}

#[test]
fn default_options() {
    let opt = Opt::default();
    assert_eq!(opt.experiment, WorkloadKind::ReadHeavy);
    assert_eq!(opt.delegation_no, 1);
    assert_eq!(opt.capacity, 15);
    assert_eq!(opt.threads, 1);
    assert_eq!(opt.ops_st, 1);
}

#[test]
fn plan_of_the_default_run() {
    let opt = Opt::default();
    let plan = BenchPlan::new(&opt, &opt.workload()).unwrap();
    assert_eq!(
        plan,
        BenchPlan {
            delegation_no: 1,
            capacity: 32768,
            threads: 1,
            ops_st: 1,
            total_ops: 32768,
            prefill: 26214,
            keys_per_thread: 65536,
            prefill_per_thread: 26214,
            ops_per_thread: 32768,
        }
    );
}

#[test]
fn plan_shares_the_run_among_three_workers() {
    let opt = Opt { delegation_no: 9, ..options(WorkloadKind::Exchange, 15, 3, 100) };
    let plan = BenchPlan::new(&opt, &opt.workload()).unwrap();
    // 328 walks of the mix at 40 insertions each stay below the capacity.
    assert_eq!(plan.delegation_no, 9);
    assert_eq!(plan.capacity, 32768);
    assert_eq!(plan.total_ops, 32768);
    assert_eq!(plan.prefill, 26214);
    // (32768 + 26214) / 3 = 19660.67, rounded up to 19661, then to 32768.
    assert_eq!(plan.keys_per_thread, 32768);
    assert_eq!(plan.prefill_per_thread, 8738);
    assert_eq!(plan.ops_per_thread, 10922);
    assert_eq!(plan.threads, 3);
    assert_eq!(plan.ops_st, 100);
}

#[test]
fn plan_makes_room_for_the_insertions_of_a_small_table() {
    // 16 operations walk the mix once: up to 100 insertions.
    let spec = WorkloadSpec::new(0, 100, 0, 0, 0, PrefillFraction::none()).unwrap();
    let plan = BenchPlan::new(&options(WorkloadKind::RapidGrow, 4, 1, 1), &spec).unwrap();
    assert_eq!(plan.capacity, 16);
    assert_eq!(plan.prefill, 0);
    assert_eq!(plan.keys_per_thread, 128);
    assert_eq!(plan.ops_per_thread, 16);
    assert_eq!(plan.prefill_per_thread, 0);
}

#[test]
fn plan_counts_upserts_as_insertions() {
    let spec = WorkloadSpec::new(0, 30, 0, 0, 70, PrefillFraction::new(1, 2).unwrap()).unwrap();
    let plan = BenchPlan::new(&options(WorkloadKind::RapidGrow, 3, 1, 1), &spec).unwrap();
    // max(8, 1 * 100) + 4 = 104 keys.
    assert_eq!(plan.prefill, 4);
    assert_eq!(plan.keys_per_thread, 128);
    let spec = WorkloadSpec::new(70, 30, 0, 0, 0, PrefillFraction::new(1, 2).unwrap()).unwrap();
    let plan = BenchPlan::new(&options(WorkloadKind::RapidGrow, 3, 1, 1), &spec).unwrap();
    // max(8, 1 * 30) + 4 = 34 keys.
    assert_eq!(plan.keys_per_thread, 64);
}

#[test]
fn plan_rounds_the_share_of_a_worker_up() {
    let spec = WorkloadSpec::new(100, 0, 0, 0, 0, PrefillFraction::none()).unwrap();
    // 64 keys for 7 workers: 9.14, rounded up to 10, then to 16.
    let plan = BenchPlan::new(&options(WorkloadKind::ReadHeavy, 6, 7, 1), &spec).unwrap();
    assert_eq!(plan.keys_per_thread, 16);
    assert_eq!(plan.ops_per_thread, 9);
    // 64 keys for 8 workers: 8 each.
    let plan = BenchPlan::new(&options(WorkloadKind::ReadHeavy, 6, 8, 1), &spec).unwrap();
    assert_eq!(plan.keys_per_thread, 8);
    assert_eq!(plan.ops_per_thread, 8);
}

#[test]
fn plan_refuses_a_run_without_workers() {
    let opt = options(WorkloadKind::ReadHeavy, 15, 0, 1);
    assert_eq!(BenchPlan::new(&opt, &opt.workload()).unwrap_err(), ConfigError::NoThreads);
    let opt = options(WorkloadKind::ReadHeavy, 200, 0, 0);
    assert_eq!(BenchPlan::new(&opt, &opt.workload()).unwrap_err(), ConfigError::NoThreads);
}

#[test]
fn plan_refuses_a_batch_size_of_zero() {
    let opt = options(WorkloadKind::ReadHeavy, 15, 1, 0);
    assert_eq!(BenchPlan::new(&opt, &opt.workload()).unwrap_err(), ConfigError::EmptyBatch);
}

#[test]
fn plan_refuses_sizes_beyond_the_machine_word() {
    let opt = options(WorkloadKind::ReadHeavy, 15, 1, usize::MAX / 9 + 1);
    assert_eq!(BenchPlan::new(&opt, &opt.workload()).unwrap_err(), ConfigError::TooLarge);
    for capacity in [usize::BITS as u8, usize::BITS as u8 + 1, 255] {
        let opt = options(WorkloadKind::RapidGrow, capacity, 1, 1);
        assert_eq!(BenchPlan::new(&opt, &opt.workload()).unwrap_err(), ConfigError::TooLarge);
    }
    // Capacity and prefill fit the word, their power of two does not.
    let opt = options(WorkloadKind::ReadHeavy, usize::BITS as u8 - 1, 1, 1);
    assert_eq!(BenchPlan::new(&opt, &opt.workload()).unwrap_err(), ConfigError::TooLarge);
    // Capacity plus a prefill of all of it does not fit.
    let all = WorkloadSpec::new(100, 0, 0, 0, 0, PrefillFraction::new(1, 1).unwrap()).unwrap();
    let opt = options(WorkloadKind::ReadHeavy, usize::BITS as u8 - 1, 4, 1);
    assert_eq!(BenchPlan::new(&opt, &all).unwrap_err(), ConfigError::TooLarge);
    // The largest table without prefill fits.
    let none = WorkloadSpec::new(100, 0, 0, 0, 0, PrefillFraction::none()).unwrap();
    let opt = options(WorkloadKind::ReadHeavy, usize::BITS as u8 - 1, 1, 1);
    let plan = BenchPlan::new(&opt, &none).unwrap();
    assert_eq!(plan.keys_per_thread, 1 << (usize::BITS - 1));
}

#[test]
fn plan_refuses_workers_with_four_keys_or_fewer() {
    let none = WorkloadSpec::new(100, 0, 0, 0, 0, PrefillFraction::none()).unwrap();
    for (capacity, threads) in [(0u8, 1usize), (1, 1), (2, 1), (3, 2), (4, 4), (10, 256)] {
        let opt = options(WorkloadKind::ReadHeavy, capacity, threads, 1);
        assert_eq!(BenchPlan::new(&opt, &none).unwrap_err(), ConfigError::KeyCount);
    }
    let opt = options(WorkloadKind::ReadHeavy, 3, 1, 1);
    assert_eq!(BenchPlan::new(&opt, &none).unwrap().keys_per_thread, 8);
    let opt = options(WorkloadKind::ReadHeavy, 10, 255, 1);
    assert_eq!(BenchPlan::new(&opt, &none).unwrap().keys_per_thread, 8);
}

#[test]
fn planned_sizes_set_up_every_worker() {
    let kinds = [WorkloadKind::ReadHeavy, WorkloadKind::Exchange, WorkloadKind::RapidGrow];
    for kind in kinds {
        for capacity in [4u8, 7, 10, 12] {
            for threads in [1usize, 2, 3, 5] {
                let opt = options(kind, capacity, threads, 16);
                let plan = match BenchPlan::new(&opt, &opt.workload()) {
                    Ok(plan) => plan,
                    Err(error) => {
                        assert_eq!(error, ConfigError::KeyCount);
                        continue;
                    }
                };
                assert!(is_power_of_two(plan.keys_per_thread));
                assert!(plan.keys_per_thread > 4);
                assert!(plan.prefill_per_thread + plan.ops_per_thread <= plan.keys_per_thread);
                let shard: Vec<u64> = (0..plan.keys_per_thread as u64).collect();
                let mut prefiller = plan.prefiller(shard).unwrap();
                let mut prefilled = 0;
                while let Some(batch) = prefiller.next_batch() {
                    prefilled += batch.len();
                }
                assert_eq!(prefilled, plan.prefill_per_thread);
                let shard = prefiller.into_keys();
                let inserts = OperationMix::from_tags(vec![Operation::Insert; 100]).unwrap();
                let mut worker = plan.worker(shard, inserts).unwrap();
                assert_eq!(worker.ops(), plan.ops_per_thread);
                assert_eq!(worker.ops_st(), plan.ops_st);
                assert_eq!(worker.oracle().insert_seq(), plan.prefill_per_thread);
                while worker.next_batch().is_some() {}
                assert_eq!(
                    worker.oracle().insert_seq(),
                    plan.prefill_per_thread + plan.ops_per_thread
                );
            }
        }
    }
}

#[test]
fn plan_with_too_few_keys_sets_no_worker_up() {
    let opt = Opt::default();
    let plan = BenchPlan::new(&opt, &opt.workload()).unwrap();
    let reads = OperationMix::from_tags(vec![Operation::Read; 100]).unwrap();
    // 16384 keys are fewer than the 26214 to prefill.
    let few: Vec<u64> = (0..16384).collect();
    assert_eq!(plan.prefiller(few.clone()).unwrap_err(), ConfigError::KeysExhausted);
    assert_eq!(plan.worker(few, reads.clone()).unwrap_err(), ConfigError::KeysExhausted);
    let odd: Vec<u64> = (0..30000).collect();
    assert!(plan.prefiller(odd.clone()).is_ok());
    assert_eq!(plan.worker(odd, reads.clone()).unwrap_err(), ConfigError::KeyCount);
    let unsized_plan = BenchPlan { ops_st: 0, ..plan };
    let some: Vec<u64> = (0..65536).collect();
    assert_eq!(unsized_plan.prefiller(some.clone()).unwrap_err(), ConfigError::EmptyBatch);
    assert_eq!(unsized_plan.worker(some.clone(), reads.clone()).unwrap_err(), ConfigError::EmptyBatch);
    // A read-only run needs no key beyond the prefilled ones.
    let exact = BenchPlan { prefill_per_thread: 32768, ..plan };
    let half: Vec<u64> = (0..32768).collect();
    assert!(exact.worker(half, reads).is_ok());
}

#[test]
fn powers_of_two_are_told_apart() {
    for exponent in 0..usize::BITS {
        let power: usize = 1 << exponent;
        assert!(is_power_of_two(power));
        if power > 2 {
            assert!(!is_power_of_two(power - 1));
            assert!(!is_power_of_two(power + 1));
        }
    }
    assert!(!is_power_of_two(0));
    assert!(!is_power_of_two(usize::MAX));
    assert!(!is_power_of_two(12));
}

#[test]
fn next_power_of_two_is_the_least_one_not_below() {
    assert_eq!(next_power_of_two(0), Some(1));
    assert_eq!(next_power_of_two(1), Some(1));
    assert_eq!(next_power_of_two(2), Some(2));
    assert_eq!(next_power_of_two(3), Some(4));
    assert_eq!(next_power_of_two(4), Some(4));
    assert_eq!(next_power_of_two(5), Some(8));
    assert_eq!(next_power_of_two(57344), Some(65536));
    for n in 1..5000usize {
        assert_eq!(next_power_of_two(n), Some(n.next_power_of_two()));
    }
    let top: usize = 1 << (usize::BITS - 1);
    assert_eq!(next_power_of_two(top - 1), Some(top));
    assert_eq!(next_power_of_two(top), Some(top));
    assert_eq!(next_power_of_two(top + 1), None);
    assert_eq!(next_power_of_two(usize::MAX), None);
}

#[test]
fn power_of_two_is_two_to_the_exponent() {
    assert_eq!(power_of_two(0), Some(1));
    assert_eq!(power_of_two(4), Some(16));
    assert_eq!(power_of_two(15), Some(32768));
    assert_eq!(power_of_two(usize::BITS as u8 - 1), Some(1 << (usize::BITS - 1)));
    assert_eq!(power_of_two(usize::BITS as u8), None);
    assert_eq!(power_of_two(255), None);
}
