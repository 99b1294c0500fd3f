//! Tasks as the store keeps them, and the requests that create and change
//! them.
//!
//! A task that is completed carries the time of its completion.

use crate::json::{json_of_strings, strings_to_json};
use crate::text::{opt_text, same_text, strings_seq};
use vstd::prelude::*;

verus! {

/// A task. Lists are kept as JSON text.
#[derive(Debug, Clone)]
pub struct Task {
    pub id: String,
    pub title: String,
    pub task_type: String,
    pub status: String,
    pub stock_symbols: Option<String>,
    pub tags: Option<String>,
    pub schedule_config: Option<String>,
    pub monitor_config: Option<String>,
    pub created_at: String,
    pub updated_at: String,
    pub completed_at: Option<String>,
}

/// A message of a task's conversation.
#[derive(Debug, Clone)]
pub struct Message {
    pub id: String,
    pub task_id: String,
    pub role: String,
    pub content: String,
    pub image_paths: Option<String>,
    pub model_used: Option<String>,
    pub trigger_source: Option<String>,
    pub created_at: String,
}

#[derive(Debug, Clone)]
pub struct CreateTaskRequest {
    pub title: String,
    pub task_type: Option<String>,
    pub stock_symbols: Option<Vec<String>>,
    pub tags: Option<Vec<String>>,
}

#[derive(Debug, Clone)]
pub struct UpdateTaskRequest {
    pub title: Option<String>,
    pub status: Option<String>,
    pub stock_symbols: Option<Vec<String>>,
    pub tags: Option<Vec<String>>,
    pub schedule_config: Option<String>,
    pub monitor_config: Option<String>,
}

#[derive(Debug, Clone)]
pub struct CreateMessageRequest {
    pub task_id: String,
    pub role: String,
    pub content: String,
    pub image_paths: Option<Vec<String>>,
    pub model_used: Option<String>,
    pub trigger_source: Option<String>,
}

/// The JSON text of an optional list.
pub open spec fn opt_json(list: Option<Vec<String>>) -> Option<Seq<char>> {
    match list {
        Some(l) => Some(json_of_strings(strings_seq(l@))),
        None => None,
    }
}

fn list_text(list: &Option<Vec<String>>) -> (text: Option<String>)
    ensures
        opt_text(text) == opt_json(*list),
{
    match list {
        Some(l) => Some(strings_to_json(l)),
        None => None,
    }
}

fn copy_opt(s: &Option<String>) -> (r: Option<String>)
    ensures
        r == *s,
{
    match s {
        Some(t) => Some(t.clone()),
        None => None,
    }
}

impl Task {
    /// Whether the task is completed.
    pub open spec fn completed(&self) -> bool {
        self.status@ == "completed"@
    }

    /// A completed task carries the time of its completion.
    pub open spec fn wf(&self) -> bool {
        self.completed() ==> self.completed_at is Some
    }

    /// Whether the dispatchers may run the task: it is active.
    pub open spec fn runnable(&self) -> bool {
        self.status@ == "active"@
    }

    /// Whether the dispatchers may run the task.
    pub fn is_runnable(&self) -> (r: bool)
        ensures
            r == self.runnable(),
            self.completed() ==> !r,
    {
        proof {
            reveal_strlit("active");
            reveal_strlit("completed");
            assert("active"@.len() == 6);
            assert("completed"@.len() == 9);
        }
        same_text(self.status.as_str(), "active")
    }

    /// Whether the scheduled-task dispatcher looks at the task: it is
    /// scheduled, active, and has a schedule.
    pub fn is_scheduled(&self) -> (r: bool)
        ensures
            r == (self.task_type@ == "scheduled"@ && self.runnable()
                && self.schedule_config is Some),
    {
        same_text(self.task_type.as_str(), "scheduled") && self.is_runnable()
            && self.schedule_config.is_some()
    }

    /// The task that a request creates: active, of the type asked for or
    /// `manual`, created and updated at the time written in `now`.
    pub fn create(id: String, request: &CreateTaskRequest, now: &String) -> (task: Task)
        ensures
            task.wf(),
            task.id == id,
            task.title == request.title,
            task.task_type@ == match request.task_type {
                Some(t) => t@,
                None => "manual"@,
            },
            task.status@ == "active"@,
            opt_text(task.stock_symbols) == opt_json(request.stock_symbols),
            opt_text(task.tags) == opt_json(request.tags),
            task.schedule_config is None,
            task.monitor_config is None,
            task.created_at == *now,
            task.updated_at == *now,
            task.completed_at is None,
    {
        proof {
            reveal_strlit("active");
            reveal_strlit("completed");
            assert("active"@.len() == 6);
            assert("completed"@.len() == 9);
        }
        Task {
            id,
            title: request.title.clone(),
            task_type: match &request.task_type {
                Some(t) => t.clone(),
                None => String::from_str("manual"),
            },
            status: String::from_str("active"),
            stock_symbols: list_text(&request.stock_symbols),
            tags: list_text(&request.tags),
            schedule_config: None,
            monitor_config: None,
            created_at: now.clone(),
            updated_at: now.clone(),
            completed_at: None,
        }
    }

    /// Applies a request to change the task. Each field that the request
    /// names is replaced. A new status sets the time of completion: to
    /// `now` for `completed`, to none for any other. The task counts as
    /// updated at `now` if the request names anything.
    pub fn update(&mut self, request: &UpdateTaskRequest, now: &String)
        ensures
            old(self).wf() || request.status is Some ==> final(self).wf(),
            final(self).id == old(self).id,
            final(self).task_type == old(self).task_type,
            final(self).created_at == old(self).created_at,
            final(self).title == match request.title {
                Some(t) => t,
                None => old(self).title,
            },
            final(self).status == match request.status {
                Some(s) => s,
                None => old(self).status,
            },
            final(self).completed_at == match request.status {
                Some(s) => if s@ == "completed"@ {
                    Some(*now)
                } else {
                    None
                },
                None => old(self).completed_at,
            },
            opt_text(final(self).stock_symbols) == match request.stock_symbols {
                Some(_) => opt_json(request.stock_symbols),
                None => opt_text(old(self).stock_symbols),
            },
            opt_text(final(self).tags) == match request.tags {
                Some(_) => opt_json(request.tags),
                None => opt_text(old(self).tags),
            },
            final(self).schedule_config == match request.schedule_config {
                Some(c) => Some(c),
                None => old(self).schedule_config,
            },
            final(self).monitor_config == match request.monitor_config {
                Some(c) => Some(c),
                None => old(self).monitor_config,
            },
            final(self).updated_at == if request.title is Some || request.status is Some
                || request.stock_symbols is Some || request.tags is Some
                || request.schedule_config is Some || request.monitor_config is Some {
                *now
            } else {
                old(self).updated_at
            },
    {
        let mut touched = false;
        match &request.title {
            Some(title) => {
                self.title = title.clone();
                touched = true;
            },
            None => {},
        }
        match &request.status {
            Some(status) => {
                if same_text(status.as_str(), "completed") {
                    self.completed_at = Some(now.clone());
                } else {
                    self.completed_at = None;
                }
                self.status = status.clone();
                touched = true;
            },
            None => {},
        }
        match &request.stock_symbols {
            Some(symbols) => {
                self.stock_symbols = Some(strings_to_json(symbols));
                touched = true;
            },
            None => {},
        }
        match &request.tags {
            Some(tags) => {
                self.tags = Some(strings_to_json(tags));
                touched = true;
            },
            None => {},
        }
        match &request.schedule_config {
            Some(config) => {
                self.schedule_config = Some(config.clone());
                touched = true;
            },
            None => {},
        }
        match &request.monitor_config {
            Some(config) => {
                self.monitor_config = Some(config.clone());
                touched = true;
            },
            None => {},
        }
        if touched {
            self.updated_at = now.clone();
        }
    }
}

impl Message {
    /// The message that a request creates, at the time written in `now`.
    /// The paths of its images are kept as JSON text.
    pub fn create(id: String, request: &CreateMessageRequest, now: &String) -> (message: Message)
        ensures
            message.id == id,
            message.task_id == request.task_id,
            message.role == request.role,
            message.content == request.content,
            opt_text(message.image_paths) == opt_json(request.image_paths),
            message.model_used == request.model_used,
            message.trigger_source == request.trigger_source,
            message.created_at == *now,
    {
        Message {
            id,
            task_id: request.task_id.clone(),
            role: request.role.clone(),
            content: request.content.clone(),
            image_paths: list_text(&request.image_paths),
            model_used: copy_opt(&request.model_used),
            trigger_source: copy_opt(&request.trigger_source),
            created_at: now.clone(),
        }
    }
}

} // verus!
