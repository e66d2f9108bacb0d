use vstd::prelude::*;

use crate::world::{
    is_first_named, none_named, shutdown_requested_view, spawned_view, with_containers, with_done, ComposeWorld,
    WorldView,
};

verus! {

/// A state event for the daemon's world, sent by async tasks and applied between updates.
#[derive(Clone, Debug)]
pub enum Message {
    SpawnContainer { name: String, image: String, start_order: u32 },
    MarkDone { container_name: String },
    RequestShutdown,
}

/// `w2` is `w` after `m` was applied at time `now`: a spawn adds a pending container;
/// a mark-done puts the `Done` marker on the first container of that name, if any;
/// a shutdown request sets the flag and logs on the system entity.
pub open spec fn message_applied(w: WorldView, m: Message, now: u64, w2: WorldView) -> bool {
    match m {
        Message::SpawnContainer { name, image, start_order } => w2 == with_containers(
            w,
            w.containers.push(spawned_view(name@, image@, start_order)),
        ),
        Message::MarkDone { container_name } => {
            &&& forall|i: int|
                is_first_named(w.containers, container_name@, i) ==> w2 == with_containers(
                    w,
                    w.containers.update(i, with_done(w.containers[i], true)),
                )
            &&& none_named(w.containers, container_name@) ==> w2 == w
        },
        Message::RequestShutdown => w2 == shutdown_requested_view(w, now),
    }
}

/// The index of the first of `names` equal to `name`.
pub fn first_index_of(names: &Vec<String>, name: &String) -> (r: Option<usize>)
    ensures
        match r {
            Some(i) => i < names@.len() && names@[i as int]@ == name@ && forall|j: int|
                0 <= j < i ==> (#[trigger] names@[j])@ != name@,
            None => forall|j: int| 0 <= j < names@.len() ==> (#[trigger] names@[j])@ != name@,
        },
{
    let mut i: usize = 0;
    while i < names.len()
        invariant
            i <= names@.len(),
            forall|j: int| 0 <= j < i ==> (#[trigger] names@[j])@ != name@,
        decreases names@.len() - i,
    {
        if names[i] == *name {
            return Some(i);
        }
        i = i + 1;
    }
    None
}

impl Message {
    /// Applies the event to the world; `now` stamps any log line it writes.
    pub fn apply(&self, world: &mut ComposeWorld, now: u64)
        ensures
            message_applied(old(world)@, *self, now, final(world)@),
    {
        match self {
            Message::SpawnContainer { name, image, start_order } => {
                world.spawn_container(name.clone(), image.clone(), *start_order);
            },
            Message::MarkDone { container_name } => {
                let found = world.find_container(container_name);
                match found {
                    Some(i) => {
                        world.mark_done(i);
                        proof {
                            assert forall|k: int|
                                is_first_named(old(world)@.containers, container_name@, k) implies k == i by {
                                if k < i {
                                    assert(old(world)@.containers[k].name != container_name@);
                                } else if k > i {
                                    assert(old(world)@.containers[i as int].name != container_name@);
                                }
                            }
                        }
                    },
                    None => {},
                }
            },
            Message::RequestShutdown => {
                world.request_shutdown(now);
            },
        }
    }

    /// The events that spawn the daemon's containers: postgres and redis first, then
    /// the API server, then the web frontend.
    pub fn daemon_containers() -> (v: Vec<Message>)
        ensures
            v@.len() == 4,
            v@[0] matches Message::SpawnContainer { name, image, start_order }
                && name@ == "postgres"@ && image@ == "postgres:16"@ && start_order == 0,
            v@[1] matches Message::SpawnContainer { name, image, start_order }
                && name@ == "redis"@ && image@ == "redis:7"@ && start_order == 0,
            v@[2] matches Message::SpawnContainer { name, image, start_order }
                && name@ == "api-server"@ && image@ == "myapp/api:latest"@ && start_order == 1,
            v@[3] matches Message::SpawnContainer { name, image, start_order }
                && name@ == "web-frontend"@ && image@ == "myapp/web:latest"@ && start_order == 2,
    {
        let mut v: Vec<Message> = Vec::new();
        v.push(
            Message::SpawnContainer {
                name: String::from_str("postgres"),
                image: String::from_str("postgres:16"),
                start_order: 0,
            },
        );
        v.push(
            Message::SpawnContainer {
                name: String::from_str("redis"),
                image: String::from_str("redis:7"),
                start_order: 0,
            },
        );
        v.push(
            Message::SpawnContainer {
                name: String::from_str("api-server"),
                image: String::from_str("myapp/api:latest"),
                start_order: 1,
            },
        );
        v.push(
            Message::SpawnContainer {
                name: String::from_str("web-frontend"),
                image: String::from_str("myapp/web:latest"),
                start_order: 2,
            },
        );
        v
    }
}

} // verus!
