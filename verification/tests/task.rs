use kernel::task::context::TaskContext;
use kernel::task::{
    add_task, block_current_and_run_next, exit_current_and_run_next, suspend_current_and_run_next,
    Kernel, ProcessControlBlock, Switch, TaskControlBlock, TaskStatus,
};

fn task(process: usize, tid: usize, status: TaskStatus) -> TaskControlBlock {
    TaskControlBlock {
        process,
        res: Some(tid),
        task_ctx: TaskContext::zero_init(),
        task_status: status,
        exit_code: None,
    }
}

fn process(pid: usize, parent: Option<usize>, children: Vec<usize>, tasks: Vec<Option<usize>>) -> ProcessControlBlock {
    ProcessControlBlock {
        pid,
        is_zombie: false,
        exit_code: 0,
        parent,
        children,
        tasks,
        data_pages_mapped: true,
        fd_table: vec![Some(0), Some(1), None],
    }
}

/// Init (pid 0, task 0) has child 1; process 1 has threads 1 (main) and 2
/// and child 2; process 2 has thread 3 and child 3; process 3 has thread 4.
fn system(current: usize) -> Kernel {
    Kernel {
        tasks: vec![
            task(0, 0, TaskStatus::Ready),
            task(1, 0, TaskStatus::Ready),
            task(1, 1, TaskStatus::Ready),
            task(2, 0, TaskStatus::Ready),
            task(3, 0, TaskStatus::Ready),
        ],
        processes: vec![
            process(0, None, vec![1], vec![Some(0)]),
            process(1, Some(0), vec![2, 3], vec![Some(1), Some(2)]),
            process(2, Some(1), vec![], vec![Some(3)]),
            process(3, Some(1), vec![], vec![Some(4), None]),
        ],
        ready_queue: vec![3, 0],
        current: Some(current),
    }
}

#[test]
fn zero_context() {
    let c = TaskContext::zero_init();
    assert_eq!(c.ra, 0);
    assert_eq!(c.sp, 0);
    assert_eq!(c.s, [0usize; 12]);
}

#[test]
fn trap_return_context() {
    let c = TaskContext::trap_return_ctx(0x8020_0000, 0x8000_1234);
    assert_eq!(c.sp, 0x8020_0000);
    assert_eq!(c.ra, 0x8000_1234);
    assert_eq!(c.s, [0usize; 12]);
}

#[test]
fn suspend_queues_task_last() {
    let mut k = system(2);
    k.tasks[2].task_status = TaskStatus::Running;
    let sw = suspend_current_and_run_next(&mut k);
    assert!(matches!(sw, Switch::SaveInto(2)));
    assert_eq!(k.current, None);
    assert_eq!(k.ready_queue, vec![3, 0, 2]);
    assert_eq!(k.tasks[2].task_status, TaskStatus::Ready);
    assert_eq!(k.tasks[2].res, Some(1));
}

#[test]
fn block_does_not_queue() {
    let mut k = system(4);
    k.tasks[4].task_status = TaskStatus::Running;
    let sw = block_current_and_run_next(&mut k);
    assert!(matches!(sw, Switch::SaveInto(4)));
    assert_eq!(k.current, None);
    assert_eq!(k.ready_queue, vec![3, 0]);
    assert_eq!(k.tasks[4].task_status, TaskStatus::Blocking);
}

#[test]
fn add_task_appends() {
    let mut k = system(0);
    add_task(&mut k, 4);
    assert_eq!(k.ready_queue, vec![3, 0, 4]);
}

#[test]
fn thread_exit_keeps_process() {
    let mut k = system(2);
    let sw = exit_current_and_run_next(&mut k, 7);
    match sw {
        Switch::Discard(c) => {
            assert_eq!(c.ra, 0);
            assert_eq!(c.sp, 0);
        },
        Switch::SaveInto(_) => panic!("an exiting task keeps no context"),
    }
    assert_eq!(k.current, None);
    assert_eq!(k.tasks[2].exit_code, Some(7));
    assert_eq!(k.tasks[2].res, None);
    assert_eq!(k.tasks[1].res, Some(0));
    let p = &k.processes[1];
    assert!(!p.is_zombie);
    assert_eq!(p.children, vec![2, 3]);
    assert_eq!(p.fd_table.len(), 3);
    assert!(p.data_pages_mapped);
    assert_eq!(k.processes[2].parent, Some(1));
}

#[test]
fn main_thread_exit_ends_process_and_hands_children_to_init() {
    let mut k = system(1);
    exit_current_and_run_next(&mut k, -3);
    assert_eq!(k.current, None);
    assert_eq!(k.tasks[1].exit_code, Some(-3));
    // every thread of the process released its resources
    assert_eq!(k.tasks[1].res, None);
    assert_eq!(k.tasks[2].res, None);
    assert_eq!(k.tasks[2].exit_code, None);
    // other processes' threads keep theirs
    assert_eq!(k.tasks[0].res, Some(0));
    assert_eq!(k.tasks[3].res, Some(0));
    let p = &k.processes[1];
    assert!(p.is_zombie);
    assert_eq!(p.exit_code, -3);
    assert!(p.children.is_empty());
    assert!(p.fd_table.is_empty());
    assert!(!p.data_pages_mapped);
    assert_eq!(p.parent, Some(0));
    // the orphans are adopted by init, after its own children
    assert_eq!(k.processes[0].children, vec![1, 2, 3]);
    assert_eq!(k.processes[2].parent, Some(0));
    assert_eq!(k.processes[3].parent, Some(0));
    assert!(!k.processes[0].is_zombie);
    assert_eq!(k.ready_queue, vec![3, 0]);
}

#[test]
fn init_exit_drops_its_children_list() {
    let mut k = system(0);
    exit_current_and_run_next(&mut k, 1);
    let init = &k.processes[0];
    assert!(init.is_zombie);
    assert_eq!(init.exit_code, 1);
    assert!(init.children.is_empty());
    // the child keeps pointing at init
    assert_eq!(k.processes[1].parent, Some(0));
    assert_eq!(k.processes[1].children, vec![2, 3]);
}

#[test]
fn exit_of_leaf_process_main_thread() {
    let mut k = system(3);
    exit_current_and_run_next(&mut k, 0);
    assert!(k.processes[2].is_zombie);
    assert_eq!(k.processes[0].children, vec![1]);
    assert_eq!(k.processes[1].children, vec![2, 3]);
    assert_eq!(k.tasks[3].res, None);
}
