//! Tasks of tickets.
use vstd::prelude::*;
use crate::call::{delete, delete_v, flag, get, get_v, input_of, jflag, jint, path_id, path_id_suffix, post, post_v, push_member, put, put_v, single, Call};
use crate::json::{copy_string, owned, view_members, Json, JsonV};
use crate::text::int_text;

verus! {

broadcast use vstd::string::group_string_axioms;

/// The status a new task gets by default: 1, to do.
pub fn default_status() -> (r: i64)
    ensures
        r == 1,
{
    1
}

pub struct ListTasksParams {
    pub ticket_id: i64,
}

/// Lists the tasks of a ticket.
pub fn list_tasks_call(p: &ListTasksParams) -> (c: Call)
    ensures
        crate::call::call_view(c) == get_v("/Ticket/"@ + int_text(p.ticket_id as int) + "/TicketTask"@),
{
    get(path_id_suffix("/Ticket/", p.ticket_id, "/TicketTask"))
}

pub struct AddTaskParams {
    pub ticket_id: i64,
    pub content: String,
    pub assigned_user_id: Option<i64>,
    /// Duration in seconds, e.g. 3600 = 1h.
    pub duration_seconds: Option<i64>,
    pub is_private: bool,
    /// 1=To do 2=Done.
    pub status: i64,
}

/// The fields of a new task: ticket, content, privacy and state, then the technician and
/// the duration when given.
pub open spec fn task_input(p: AddTaskParams) -> Seq<(Seq<char>, JsonV)> {
    let base = seq![
        ("tickets_id"@, JsonV::Int(p.ticket_id as int)),
        ("content"@, JsonV::Str(p.content@)),
        ("is_private"@, flag(p.is_private)),
        ("state"@, JsonV::Int(p.status as int)),
    ];
    let with_tech = match p.assigned_user_id {
        Some(u) => base.push(("users_id_tech"@, JsonV::Int(u as int))),
        None => base,
    };
    match p.duration_seconds {
        Some(d) => with_tech.push(("actiontime"@, JsonV::Int(d as int))),
        None => with_tech,
    }
}

/// Creates a task on a ticket.
pub fn add_task_call(p: &AddTaskParams) -> (c: Call)
    ensures
        crate::call::call_view(c) == post_v("/TicketTask"@, single("input"@, JsonV::Object(task_input(*p)))),
{
    let mut m: Vec<(String, Json)> = Vec::new();
    push_member(&mut m, "tickets_id", jint(p.ticket_id));
    push_member(&mut m, "content", Json::Str(copy_string(&p.content)));
    push_member(&mut m, "is_private", jflag(p.is_private));
    push_member(&mut m, "state", jint(p.status));
    match p.assigned_user_id {
        Some(u) => push_member(&mut m, "users_id_tech", jint(u)),
        None => {},
    }
    match p.duration_seconds {
        Some(d) => push_member(&mut m, "actiontime", jint(d)),
        None => {},
    }
    assert(view_members(m@) =~= task_input(*p));
    post(owned("/TicketTask"), input_of(Json::Object(m)))
}

pub struct UpdateTaskParams {
    pub task_id: i64,
    /// Fields to change, e.g. state (1/2), content, actiontime, users_id_tech.
    pub update_fields: Json,
}

/// Writes the given fields of a task.
pub fn update_task_call(p: &UpdateTaskParams) -> (c: Call)
    ensures
        crate::call::call_view(c) == put_v("/TicketTask/"@ + int_text(p.task_id as int), single("input"@, p.update_fields@)),
{
    put(path_id("/TicketTask/", p.task_id), input_of(p.update_fields.deep_clone()))
}

pub struct DeleteTaskParams {
    pub task_id: i64,
}

/// Deletes a task.
pub fn delete_task_call(p: &DeleteTaskParams) -> (c: Call)
    ensures
        crate::call::call_view(c) == delete_v("/TicketTask/"@ + int_text(p.task_id as int)),
{
    delete(path_id("/TicketTask/", p.task_id))
}

} // verus!
