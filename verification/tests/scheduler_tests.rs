use demikernel::scheduler::Scheduler;
use demikernel::task::CoTask;
use demikernel::task::TaskStatus;

struct DummyCoroutine {
    val: usize,
}

impl DummyCoroutine {
    fn new(val: usize) -> Self {
        DummyCoroutine { val }
    }
}

impl CoTask for DummyCoroutine {
    fn name(&self) -> String {
        String::from("testing")
    }

    fn poll_task(&mut self) -> TaskStatus {
        match self.val & 1 {
            0 => TaskStatus::Ready,
            _ => {
                self.val += 1;
                TaskStatus::Pending { wake: true }
            }
        }
    }
}

#[test]
fn insert_creates_unique_tasks_ids() {
    let mut scheduler: Scheduler<DummyCoroutine> = Scheduler::default();

    // Insert a task and make sure the task id is not a simple counter.
    let task = DummyCoroutine::new(0);
    let task_id = scheduler.insert(task).expect("insert() failed");

    // Insert another task and make sure the task id is not sequentially after the previous one.
    let task2 = DummyCoroutine::new(0);
    let task_id2 = scheduler.insert(task2).expect("insert() failed");

    assert_ne!(task_id2, task_id);
}

#[test]
fn poll_once_with_one_small_task_completes_it() {
    let mut scheduler: Scheduler<DummyCoroutine> = Scheduler::default();

    // Insert a single future in the scheduler. This future shall complete with a single poll operation.
    let task = DummyCoroutine::new(0);
    let task_id = scheduler.insert(task).expect("insert() failed");

    // All futures are inserted in the scheduler with notification flag set.
    // By polling once, our future should complete.
    scheduler.poll();

    assert_eq!(
        scheduler
            .has_completed(task_id)
            .expect("should find task completion status"),
        true
    );
}

#[test]
fn poll_twice_with_one_long_task_completes_it() {
    let mut scheduler: Scheduler<DummyCoroutine> = Scheduler::default();

    // Insert a single future in the scheduler. This future shall complete
    // with two poll operations.
    let task = DummyCoroutine::new(1);
    let task_id = scheduler.insert(task).expect("insert() failed");

    // All futures are inserted in the scheduler with notification flag set.
    // By polling once, this future should make a transition.
    scheduler.poll();

    assert_eq!(
        scheduler
            .has_completed(task_id)
            .expect("should find task completion status"),
        false
    );

    // This shall make the future ready.
    scheduler.poll();

    assert_eq!(
        scheduler
            .has_completed(task_id)
            .expect("should find task completion status"),
        true
    );
}

#[test]
fn insert_consecutive_creates_unique_task_ids() {
    let mut scheduler: Scheduler<DummyCoroutine> = Scheduler::default();

    // Create and run a task.
    let task = DummyCoroutine::new(0);
    let task_id = scheduler.insert(task).expect("insert() failed");
    scheduler.poll();

    // Ensure that the first task has completed.
    assert_eq!(
        scheduler
            .has_completed(task_id)
            .expect("should find task completion status"),
        true
    );

    // Create another task.
    let task2 = DummyCoroutine::new(0);
    let task_id2 = scheduler.insert(task2).expect("insert() failed");

    // Ensure that the second task has a unique id.
    assert_ne!(task_id2, task_id);
}

#[test]
fn remove_removes_task_id() {
    let mut scheduler: Scheduler<DummyCoroutine> = Scheduler::default();
    // Arbitrarily large number.
    const NUM_TASKS: usize = 8192;
    let mut task_ids: Vec<u64> = Vec::with_capacity(NUM_TASKS);

    assert_eq!(0, scheduler.num_tasks());

    for val in 0..NUM_TASKS {
        let task = DummyCoroutine::new(val);
        let task_id = scheduler.insert(task).expect("insert() failed");
        task_ids.push(task_id);
    }

    // This poll is required to give the opportunity for all the tasks to complete.
    scheduler.poll();

    // Remove tasks one by one and check if remove is only removing the task requested to be removed.
    let mut curr_num_tasks: usize = NUM_TASKS;
    for i in 0..NUM_TASKS {
        let task_id: u64 = task_ids[i];
        assert_eq!(true, scheduler.contains_task_id(task_id));
        scheduler.remove(task_id);
        curr_num_tasks = curr_num_tasks - 1;
        assert_eq!(scheduler.num_tasks(), curr_num_tasks);
        assert_eq!(false, scheduler.contains_task_id(task_id));
    }

    assert_eq!(scheduler.num_tasks(), 0);
}

// A task that counts its polls: pending with a self-wake on the first
// poll, ready on the second.
struct CountingTask {
    polls: usize,
}

impl CoTask for CountingTask {
    fn name(&self) -> String {
        String::from("counting")
    }

    fn poll_task(&mut self) -> TaskStatus {
        self.polls += 1;
        if self.polls == 1 {
            TaskStatus::Pending { wake: true }
        } else {
            TaskStatus::Ready
        }
    }
}

#[test]
fn single_poll_completion() {
    let mut scheduler: Scheduler<DummyCoroutine> = Scheduler::default();
    let id = scheduler.insert(DummyCoroutine::new(0)).expect("insert() failed");
    scheduler.poll();
    assert_eq!(scheduler.has_completed(id), Some(true));
}

#[test]
fn self_waking_task_needs_two_polls() {
    let mut scheduler: Scheduler<CountingTask> = Scheduler::default();
    let id = scheduler.insert(CountingTask { polls: 0 }).expect("insert() failed");

    // The self-wake during the first poll must not be honored within the
    // same scan.
    scheduler.poll();
    assert_eq!(scheduler.has_completed(id), Some(false));

    scheduler.poll();
    assert_eq!(scheduler.has_completed(id), Some(true));
}

#[test]
fn id_uniqueness_under_churn() {
    let mut scheduler: Scheduler<DummyCoroutine> = Scheduler::default();
    const NUM_TASKS: usize = 8192;
    let mut ids: Vec<u64> = Vec::with_capacity(NUM_TASKS);
    for val in 0..NUM_TASKS {
        let id = scheduler.insert(DummyCoroutine::new(val)).expect("insert() failed");
        assert!(id < 0x10000);
        ids.push(id);
    }
    // All live ids are distinct.
    let mut sorted = ids.clone();
    sorted.sort();
    sorted.dedup();
    assert_eq!(sorted.len(), NUM_TASKS);

    scheduler.poll();

    for id in &ids {
        assert!(scheduler.contains_task_id(*id));
        scheduler.remove(*id);
        assert!(!scheduler.contains_task_id(*id));
    }
    assert_eq!(scheduler.num_tasks(), 0);
}

// A task that never completes and never wakes itself.
struct IdleTask;

impl CoTask for IdleTask {
    fn name(&self) -> String {
        String::from("idle")
    }

    fn poll_task(&mut self) -> TaskStatus {
        TaskStatus::Pending { wake: false }
    }
}

#[test]
fn wake_causes_next_poll() {
    let mut scheduler: Scheduler<CountingTask> = Scheduler::default();
    let id = scheduler.insert(CountingTask { polls: 99 }).expect("insert() failed");

    // First poll (insertion notified it): polls becomes 100 and the task
    // completes.
    scheduler.poll();
    assert_eq!(scheduler.has_completed(id), Some(true));

    // Waking a completed task is a no-op for polling purposes.
    assert!(scheduler.wake(id));
    scheduler.poll();
    assert_eq!(scheduler.has_completed(id), Some(true));
}

#[test]
fn idle_task_polled_only_when_woken() {
    let mut scheduler: Scheduler<IdleTask> = Scheduler::default();
    let id = scheduler.insert(IdleTask).expect("insert() failed");

    // Polled once on insertion, then left alone.
    scheduler.poll();
    scheduler.poll();
    assert_eq!(scheduler.has_completed(id), Some(false));

    // A wake from outside makes the next scan visit it again.
    assert!(scheduler.wake(id));
    scheduler.poll();
    assert_eq!(scheduler.has_completed(id), Some(false));

    // Waking an absent id reports false.
    scheduler.remove(id);
    assert!(!scheduler.wake(id));
}

#[test]
fn completion_is_monotone() {
    let mut scheduler: Scheduler<DummyCoroutine> = Scheduler::default();
    let id = scheduler.insert(DummyCoroutine::new(0)).expect("insert() failed");
    scheduler.poll();
    assert_eq!(scheduler.has_completed(id), Some(true));

    // Unrelated inserts, wakes and polls leave the completed bit set.
    let id2 = scheduler.insert(DummyCoroutine::new(1)).expect("insert() failed");
    scheduler.wake(id);
    scheduler.poll();
    assert_eq!(scheduler.has_completed(id), Some(true));
    scheduler.poll();
    assert_eq!(scheduler.has_completed(id), Some(true));
    assert_eq!(scheduler.has_completed(id2), Some(true));

    // Only removal forgets the task.
    scheduler.remove(id);
    assert_eq!(scheduler.has_completed(id), None);
}

#[test]
fn poll_reports_each_task_outcome() {
    let mut scheduler: Scheduler<CountingTask> = Scheduler::default();
    let id = scheduler.insert(CountingTask { polls: 0 }).expect("insert() failed");

    // First scan: the task suspends with a self-wake; the outcome says so
    // and the completed bit agrees.
    let outcomes = scheduler.poll();
    assert_eq!(outcomes.len(), 1);
    assert_eq!(outcomes[0].1, TaskStatus::Pending { wake: true });
    assert_eq!(scheduler.has_completed(id), Some(false));

    // Second scan: the task completes; again the outcome and the bit agree.
    let outcomes = scheduler.poll();
    assert_eq!(outcomes.len(), 1);
    assert_eq!(outcomes[0].1, TaskStatus::Ready);
    assert_eq!(scheduler.has_completed(id), Some(true));

    // Nothing is notified any more: a further scan polls nobody.
    assert_eq!(scheduler.poll().len(), 0);
}

#[test]
fn entropy_seeded_scheduler_works() {
    let mut scheduler: Scheduler<DummyCoroutine> = Scheduler::with_entropy();
    let id = scheduler.insert(DummyCoroutine::new(0)).expect("insert() failed");
    assert!(id < 0x10000);
    scheduler.poll();
    assert_eq!(scheduler.has_completed(id), Some(true));
}
