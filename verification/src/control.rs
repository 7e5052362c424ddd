//! The registry as its own control-plane handler: the two-verb endpoint that
//! lists registered plugins (`GET`) and registers new ones (`POST`).
//!
//! Loading a plugin is the surrounding runtime's job and may suspend, so the
//! endpoint is split at that boundary: `handle_control` decides everything up
//! to the loader call, and `finish_load` completes a `POST` once the loader
//! has produced a handler or failed. Between the two calls the registry is
//! untouched, so a failed parse or a failed load never mutates it.

use crate::plugin::Plugin;
use crate::registry::{descriptors_of, spec_register, PluginRegistry};
use crate::wire::{json_of_list, list_json};
use vstd::prelude::*;

verus! {

/// A control endpoint response: a status code, a body, and whether the body
/// is JSON (the listing) or plain text (errors).
#[derive(Debug)]
pub struct ControlResponse {
    pub status: u16,
    pub body: Vec<u8>,
    pub json: bool,
}

/// One parsed control request: the method, and for `POST` the outcome of
/// parsing the request body as a descriptor — the descriptor, or the parse
/// error text to echo back.
pub enum ControlRequest {
    Get,
    Post(Result<Plugin, Vec<u8>>),
    Other,
}

/// What the endpoint asks of its caller next: reply as given, or run the
/// loader on a descriptor and come back through `finish_load`.
pub enum ControlStep {
    Reply(ControlResponse),
    Load(Plugin),
}

/// The bytes of `Can't load plugin`.
pub open spec fn cant_load_message() -> Seq<u8> {
    seq![
        67u8, 97u8, 110u8, 39u8, 116u8, 32u8, 108u8, 111u8, 97u8, 100u8, 32u8, 112u8, 108u8,
        117u8, 103u8, 105u8, 110u8,
    ]
}

impl PluginRegistry {
    /// The control endpoint's first half, up to the loader boundary:
    /// - `GET` replies 200 with the JSON listing of every registered
    ///   descriptor. The listing is total, so the server-fault reply for a
    ///   failed serialization is unreachable here.
    /// - `POST` with a descriptor that parsed asks the caller to load it.
    /// - `POST` whose body did not parse replies 400 carrying the parse
    ///   error; the registry is untouched.
    /// - any other method replies 405.
    pub fn handle_control(&self, req: ControlRequest) -> (r: ControlStep)
        requires
            self.wf(),
        ensures
            match req {
                ControlRequest::Get => r matches ControlStep::Reply(resp) && resp.status == 200
                    && resp.json && resp.body@ == json_of_list(descriptors_of(self@.plugins)),
                ControlRequest::Post(outcome) => match outcome {
                    Ok(p) => r matches ControlStep::Load(q) && q@ == p@,
                    Err(e) => r matches ControlStep::Reply(resp) && resp.status == 400
                        && !resp.json && resp.body@ == e@,
                },
                ControlRequest::Other => r matches ControlStep::Reply(resp) && resp.status == 405
                    && !resp.json && resp.body@ == Seq::<u8>::empty(),
            },
    {
        match req {
            ControlRequest::Get => {
                let list = self.plugin_list();
                let body = list_json(&list);
                proof {
                    assert(list@.map_values(|p: Plugin| p@) =~= descriptors_of(self@.plugins));
                }
                ControlStep::Reply(ControlResponse { status: 200, body, json: true })
            },
            ControlRequest::Post(outcome) => match outcome {
                Ok(plugin) => ControlStep::Load(plugin),
                Err(e) => ControlStep::Reply(
                    ControlResponse { status: 400, body: e, json: false },
                ),
            },
            ControlRequest::Other => ControlStep::Reply(
                ControlResponse { status: 405, body: Vec::new(), json: false },
            ),
        }
    }

    /// The control endpoint's second half, after the loader ran on the
    /// descriptor a `POST` carried:
    /// - a loaded handler (its handle) registers the plugin — the routing
    ///   entry and the map entry become visible together — and replies 201;
    /// - a loader failure replies 422 with a fixed message, the cause is not
    ///   echoed, and the registry is untouched.
    pub fn finish_load(&mut self, plugin: Plugin, handler: Option<u64>) -> (r: ControlResponse)
        requires
            old(self).wf(),
        ensures
            final(self).wf(),
            match handler {
                Some(h) => {
                    &&& final(self)@.routes == old(self)@.routes.push(
                        (plugin@.prefix, plugin@.name),
                    )
                    &&& final(self)@.plugins == spec_register(old(self)@.plugins, plugin@, h)
                    &&& r.status == 201
                    &&& r.body@ == Seq::<u8>::empty()
                },
                None => {
                    &&& final(self)@ == old(self)@
                    &&& r.status == 422
                    &&& r.body@ == cant_load_message()
                },
            },
    {
        match handler {
            Some(h) => {
                self.register(plugin, h);
                ControlResponse { status: 201, body: Vec::new(), json: false }
            },
            None => {
                let body: Vec<u8> = vec![
                    67u8, 97u8, 110u8, 39u8, 116u8, 32u8, 108u8, 111u8, 97u8, 100u8, 32u8, 112u8,
                    108u8, 117u8, 103u8, 105u8, 110u8,
                ];
                proof {
                    assert(body@ =~= cant_load_message());
                }
                ControlResponse { status: 422, body, json: false }
            },
        }
    }
}

} // verus!
