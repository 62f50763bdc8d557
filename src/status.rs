//! The text of the queue status shown to a user.
use vstd::prelude::*;
use vstd::string::*;

use crate::task::{QueuedTaskInfo, TaskStatus};
use crate::text::{decimal, push_char, push_decimal, push_text};

verus! {

/// Width of a progress bar, in cells.
pub const BAR_WIDTH: usize = 10;

pub open spec fn repeat(c: char, n: nat) -> Seq<char> {
    Seq::new(n, |_i: int| c)
}

/// A bar of `width` cells, filled in proportion to a percentage, followed
/// by the percentage; an empty bar marked as waiting without one.
pub open spec fn bar_text(progress: Option<u8>, width: nat) -> Seq<char> {
    match progress {
        Some(p) => {
            let filled = (p as nat * width) / 100;
            repeat('▓', filled) + repeat('░', (width - filled) as nat) + " "@ + decimal(p as nat) + "%"@
        },
        None => repeat('░', width) + " ожидает"@,
    }
}

fn push_repeat(s: &mut String, c: char, n: usize)
    ensures
        final(s)@ == old(s)@ + repeat(c, n as nat),
{
    let mut i: usize = 0;
    while i < n
        invariant
            i <= n,
            s@ == old(s)@ + repeat(c, i as nat),
        decreases n - i,
    {
        push_char(s, c);
        assert(s@ =~= old(s)@ + repeat(c, (i + 1) as nat));
        i = i + 1;
    }
}

/// A progress bar of `width` cells.
pub fn progress_bar(progress: Option<u8>, width: usize) -> (r: String)
    requires
        progress is Some ==> progress->Some_0 <= 100,
        width <= usize::MAX / 100,
    ensures
        r@ == bar_text(progress, width as nat),
{
    let mut s = String::new();
    match progress {
        Some(p) => {
            assert(p as nat * width as nat <= 100 * width as nat) by (nonlinear_arith)
                requires
                    p <= 100,
            ;
            let filled = (p as usize * width) / 100;
            assert(filled <= width) by (nonlinear_arith)
                requires
                    filled == (p as nat * width as nat) / 100,
                    p as nat * width as nat <= 100 * width as nat,
            ;
            push_repeat(&mut s, '▓', filled);
            push_repeat(&mut s, '░', width - filled);
            push_text(&mut s, " ");
            push_decimal(&mut s, p as u64);
            push_text(&mut s, "%");
        },
        None => {
            push_repeat(&mut s, '░', width);
            push_text(&mut s, " ожидает");
        },
    }
    s
}

pub open spec fn is_active(t: QueuedTaskInfo) -> bool {
    t.status is Queued || t.status is Processing
}

/// The line of one task: its label, then a bar while it runs or its place
/// while it waits. Finished tasks get no line.
pub open spec fn status_line(t: QueuedTaskInfo) -> Seq<char> {
    match t.status {
        TaskStatus::Processing => t.task_type@ + " "@ + bar_text(Some(0u8), BAR_WIDTH as nat) + "\n"@,
        TaskStatus::Queued { position } => t.task_type@ + " "@ + repeat('░', BAR_WIDTH as nat) + " #"@ + decimal(
            position as nat,
        ) + "\n"@,
        _ => seq![],
    }
}

pub open spec fn status_lines(ts: Seq<QueuedTaskInfo>) -> Seq<char>
    decreases ts.len(),
{
    if ts.len() == 0 {
        seq![]
    } else {
        status_lines(ts.drop_last()) + status_line(ts.last())
    }
}

proof fn lemma_no_active_lines(ts: Seq<QueuedTaskInfo>)
    requires
        forall|i: int| 0 <= i < ts.len() ==> !is_active(#[trigger] ts[i]),
    ensures
        status_lines(ts) == Seq::<char>::empty(),
    decreases ts.len(),
{
    if ts.len() > 0 {
        assert(!is_active(ts[ts.len() - 1]));
        lemma_no_active_lines(ts.drop_last());
        assert(status_lines(ts) =~= Seq::<char>::empty());
    }
}

/// The whole status: the number of waiting tasks, then the user's active
/// tasks, or a note that there are none.
pub open spec fn queue_text(pending: nat, ts: Seq<QueuedTaskInfo>) -> Seq<char> {
    "📊 Очередь ("@ + decimal(pending) + ")\n\n"@ + if exists|i: int| 0 <= i < ts.len() && is_active(#[trigger] ts[i]) {
        status_lines(ts)
    } else {
        "У вас нет активных задач."@
    }
}

/// The status text for a user, from the number of waiting tasks and the
/// user's listing.
pub fn queue_status_text(pending: usize, tasks: &Vec<QueuedTaskInfo>) -> (r: String)
    ensures
        r@ == queue_text(pending as nat, tasks@),
{
    let mut s = String::from_str("📊 Очередь (");
    push_decimal(&mut s, pending as u64);
    push_text(&mut s, ")\n\n");
    let ghost head = s@;
    let mut any = false;
    let mut i: usize = 0;
    while i < tasks.len()
        invariant
            i <= tasks@.len(),
            s@ == head + status_lines(tasks@.subrange(0, i as int)),
            any == exists|j: int| 0 <= j < i && is_active(#[trigger] tasks@[j]),
        decreases tasks@.len() - i,
    {
        let t = &tasks[i];
        let ghost before = s@;
        match &t.status {
            TaskStatus::Processing => {
                push_text(&mut s, t.task_type.as_str());
                push_text(&mut s, " ");
                let bar = progress_bar(Some(0u8), BAR_WIDTH);
                push_text(&mut s, bar.as_str());
                push_text(&mut s, "\n");
                any = true;
            },
            TaskStatus::Queued { position } => {
                push_text(&mut s, t.task_type.as_str());
                push_text(&mut s, " ");
                push_repeat(&mut s, '░', BAR_WIDTH);
                push_text(&mut s, " #");
                push_decimal(&mut s, *position as u64);
                push_text(&mut s, "\n");
                any = true;
            },
            _ => {},
        }
        let ghost next = tasks@.subrange(0, i + 1);
        assert(next.drop_last() =~= tasks@.subrange(0, i as int));
        assert(s@ =~= head + status_lines(next));
        i = i + 1;
    }
    assert(tasks@.subrange(0, i as int) =~= tasks@);
    assert(head =~= "📊 Очередь ("@ + decimal(pending as nat) + ")\n\n"@);
    if !any {
        proof {
            lemma_no_active_lines(tasks@);
        }
        push_text(&mut s, "У вас нет активных задач.");
        assert(s@ =~= queue_text(pending as nat, tasks@));
        s
    } else {
        proof {
            let j = choose|j: int| 0 <= j < tasks@.len() && is_active(#[trigger] tasks@[j]);
            assert(is_active(tasks@[j]));
        }
        s
    }
}

} // verus!
