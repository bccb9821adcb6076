use webserver::executor::{
    async_thread_main, async_thread_main_future, completed, start, AsyncMsg, Task,
};
use webserver::connection::Outcome;
use webserver::request::RequestError;
use webserver::select::{slice_select, take_ready, Select};
use webserver::server::{Accept, Accepted, WebServer, WORKERS};
use webserver::thread::{least_busy, Message, Thread};

fn loads(server: &WebServer<()>) -> Vec<usize> {
    server.threads().iter().map(|thread| thread.tasks()).collect()
}

fn worker_with(tasks: usize) -> Thread {
    let mut thread = Thread::new();
    for job in 0..tasks {
        let _ = thread.send(job);
    }
    thread
}

fn dispatch(server: &mut WebServer<()>, job: u32) -> usize {
    match server.poll(Accept::Connection(job)) {
        Accepted::Dispatch(id, Message::NewJob(sent)) => {
            assert_eq!(sent, job);
            id
        }
        _ => panic!("a connection was not dispatched"),
    }
}

#[test]
fn server_starts_with_four_idle_workers() {
    let server: WebServer<()> = WebServer::with_resources("site");
    assert_eq!(WORKERS, 4);
    assert_eq!(loads(&server), vec![0, 0, 0, 0]);
    assert_eq!(server.web().path(), "site");
    assert!(server.web().get("/").is_none());
}

#[test]
fn connections_in_a_row_go_to_the_least_loaded_worker() {
    let mut server: WebServer<()> = WebServer::with_resources("site");
    let mut targets = Vec::new();
    for job in 0..10 {
        let before = loads(&server);
        let id = dispatch(&mut server, job);
        let least = *before.iter().min().unwrap();
        assert_eq!(before[id], least);
        assert!(before[..id].iter().all(|load| *load > least));
        let mut after = before.clone();
        after[id] += 1;
        assert_eq!(loads(&server), after);
        targets.push(id);
    }
    assert_eq!(targets, vec![0, 1, 2, 3, 0, 1, 2, 3, 0, 1]);
    assert_eq!(loads(&server), vec![3, 3, 2, 2]);
}

#[test]
fn counters_return_to_zero_when_every_connection_completed() {
    let mut server: WebServer<()> = WebServer::with_resources("site");
    let mut targets = Vec::new();
    for job in 0..7 {
        targets.push(dispatch(&mut server, job));
    }
    assert_eq!(loads(&server), vec![2, 2, 2, 1]);
    // The connections complete in another order than they came in.
    targets.reverse();
    targets.swap(0, 3);
    for id in targets {
        server.thread(id).finish();
    }
    assert_eq!(loads(&server), vec![0, 0, 0, 0]);
}

#[test]
fn completed_connections_make_room_on_their_worker() {
    let mut server: WebServer<()> = WebServer::with_resources("site");
    for job in 0..4 {
        dispatch(&mut server, job);
    }
    server.thread(2).finish();
    assert_eq!(loads(&server), vec![1, 1, 0, 1]);
    assert_eq!(dispatch(&mut server, 4), 2);
    assert_eq!(dispatch(&mut server, 5), 0);
    server.thread(3).finish();
    server.thread(1).finish();
    assert_eq!(loads(&server), vec![2, 0, 1, 0]);
    assert_eq!(dispatch(&mut server, 6), 1);
    assert_eq!(dispatch(&mut server, 7), 3);
}

#[test]
fn acceptor_suspends_when_no_connection_is_pending() {
    let mut server: WebServer<()> = WebServer::with_resources("site");
    assert!(matches!(server.poll(Accept::<u32>::WouldBlock), Accepted::Pending));
    assert_eq!(loads(&server), vec![0, 0, 0, 0]);
}

#[test]
fn acceptor_reports_a_failing_listener() {
    let mut server: WebServer<()> = WebServer::with_resources("site");
    dispatch(&mut server, 1);
    assert!(matches!(server.poll(Accept::<u32>::Failed), Accepted::Failed));
    assert_eq!(loads(&server), vec![1, 0, 0, 0]);
}

#[test]
fn routes_do_not_touch_the_workers() {
    let mut server: WebServer<u8> = WebServer::with_resources("site");
    assert!(matches!(server.poll(Accept::Connection('a')), Accepted::Dispatch(0, _)));
    let server = server.url("/a", 1).url_with_type("/b", 2, "text/plain").url("/a", 3);
    let tasks: Vec<usize> = server.threads().iter().map(|thread| thread.tasks()).collect();
    assert_eq!(tasks, vec![1, 0, 0, 0]);
    let a = server.web().get("/a").unwrap();
    assert_eq!((a.content_type, a.handler), ("text/html; charset=utf-8", 3));
    let b = server.web().get("/b").unwrap();
    assert_eq!((b.content_type, b.handler), ("text/plain", 2));
}

#[test]
fn least_busy_takes_the_first_of_equal_minima() {
    let threads = vec![worker_with(3), worker_with(1), worker_with(2), worker_with(1)];
    assert_eq!(least_busy(&threads), 1);
    let threads = vec![worker_with(0)];
    assert_eq!(least_busy(&threads), 0);
    let threads = vec![worker_with(5), worker_with(5), worker_with(5)];
    assert_eq!(least_busy(&threads), 0);
    let threads = vec![worker_with(4), worker_with(3), worker_with(2), worker_with(1)];
    assert_eq!(least_busy(&threads), 3);
}

#[test]
fn thread_counts_what_it_was_sent() {
    let mut thread = Thread::new();
    assert_eq!(thread.tasks(), 0);
    assert!(matches!(thread.send("job"), Message::NewJob("job")));
    assert_eq!(thread.tasks(), 1);
    assert!(matches!(thread.send("next"), Message::NewJob("next")));
    assert_eq!(thread.tasks(), 2);
    thread.finish();
    assert_eq!(thread.tasks(), 1);
    thread.finish();
    assert_eq!(thread.tasks(), 0);
}

#[test]
fn thread_count_never_falls_below_zero() {
    let mut thread = Thread::new();
    thread.finish();
    assert_eq!(thread.tasks(), 0);
    let _ = thread.send(());
    thread.finish();
    thread.finish();
    assert_eq!(thread.tasks(), 0);
}

#[test]
fn multiplexer_polls_from_the_start_and_suspends_at_the_end() {
    assert_eq!(slice_select(3, 0), Select::Poll(0));
    assert_eq!(slice_select(3, 1), Select::Poll(1));
    assert_eq!(slice_select(3, 2), Select::Poll(2));
    assert_eq!(slice_select(3, 3), Select::Pending);
    assert_eq!(slice_select(0, 0), Select::Pending);
    assert_eq!(slice_select(2, 7), Select::Pending);
}

#[test]
fn multiplexer_stops_at_the_first_ready_entry() {
    // One wake over entries of which the third and the fourth are ready.
    let ready = [false, false, true, true];
    let mut polled = 0;
    let mut found = None;
    while let Select::Poll(index) = slice_select(ready.len(), polled) {
        if ready[index] {
            found = Some(index);
            break;
        }
        polled += 1;
    }
    assert_eq!(found, Some(2));
    assert_eq!(polled, 2);
}

#[test]
fn ready_entry_leaves_and_the_rest_keeps_its_order() {
    let mut tasks = vec!['a', 'b', 'c', 'd'];
    assert_eq!(take_ready(&mut tasks, 1), 'b');
    assert_eq!(tasks, vec!['a', 'c', 'd']);
    assert_eq!(take_ready(&mut tasks, 2), 'd');
    assert_eq!(tasks, vec!['a', 'c']);
    assert_eq!(take_ready(&mut tasks, 0), 'a');
    assert_eq!(tasks, vec!['c']);
}

#[test]
fn message_becomes_the_signal_of_the_loop() {
    let signal: AsyncMsg<&str, u32> = async_thread_main_future("channel", Message::NewJob(7));
    assert!(matches!(signal, AsyncMsg::NewTask("channel", 7)));
    let signal: AsyncMsg<&str, u32> = async_thread_main_future("channel", Message::Terminate);
    assert!(matches!(signal, AsyncMsg::Quit));
}

#[test]
fn connection_reports_old_task_however_it_ended() {
    for outcome in [
        Outcome::Served,
        Outcome::Aborted,
        Outcome::Malformed(RequestError::Method),
        Outcome::Malformed(RequestError::Path),
        Outcome::Malformed(RequestError::Version),
        Outcome::Malformed(RequestError::Encoding),
    ] {
        let signal: AsyncMsg<(), ()> = completed(outcome);
        assert!(matches!(signal, AsyncMsg::OldTask));
    }
}

#[test]
fn loop_starts_waiting_for_its_first_message() {
    let tasks: Vec<Task<&str, u32>> = start("channel");
    assert_eq!(tasks.len(), 1);
    assert!(matches!(tasks[0], Task::Receive("channel")));
}

#[test]
fn new_job_rearms_the_wait_and_joins_the_tasks() {
    let mut tasks: Vec<Task<&str, u32>> = start("channel");
    let mut thread = worker_with(1);
    // The wait completed with a job and left the collection.
    let recv = match take_ready(&mut tasks, 0) {
        Task::Receive(recv) => recv,
        Task::Job(_) => panic!("the first task is the wait"),
    };
    let signal = async_thread_main_future(recv, Message::NewJob(11));
    assert!(async_thread_main(&mut tasks, &mut thread, signal));
    assert_eq!(tasks.len(), 2);
    assert!(matches!(tasks[0], Task::Receive("channel")));
    assert!(matches!(tasks[1], Task::Job(11)));
    assert_eq!(thread.tasks(), 1);
}

#[test]
fn finished_connection_lowers_the_count_by_one() {
    let mut tasks: Vec<Task<&str, u32>> = vec![Task::Receive("channel"), Task::Job(4)];
    let mut thread = worker_with(3);
    assert!(async_thread_main(&mut tasks, &mut thread, completed(Outcome::Served)));
    assert_eq!(thread.tasks(), 2);
    assert_eq!(tasks.len(), 2);
    assert!(matches!(tasks[0], Task::Receive("channel")));
    assert!(matches!(tasks[1], Task::Job(4)));
}

#[test]
fn terminate_ends_the_loop_with_connections_in_flight() {
    let mut tasks: Vec<Task<&str, u32>> = vec![Task::Job(1), Task::Job(2), Task::Job(3)];
    let mut thread = worker_with(3);
    let signal = async_thread_main_future("channel", Message::Terminate);
    assert!(!async_thread_main(&mut tasks, &mut thread, signal));
    assert_eq!(tasks.len(), 3);
    assert_eq!(thread.tasks(), 3);
}
