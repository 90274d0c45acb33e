//! The session and its call bridge.
//!
//! A [`Script`] owns the bookkeeping of one embedded-engine execution
//! context: the slot counter that keys each call's result, the registered
//! namespaces, the optional timeout, and the pending-result store.  The
//! sources handed to the engine are built here, pinned down character by
//! character; executing them, and driving the engine's event loop, is the
//! embedder's part.

use vstd::prelude::*;
use vstd::string::StringExecFns;

use crate::js_error::CallError;
use crate::json::JsValue;
use crate::json::SpecJson;
use crate::slot::SlotStore;
use crate::slot::spec_lookup;

verus! {

broadcast use vstd::std_specs::vec::group_vec_axioms;

/// One loadable JavaScript context: the verified bookkeeping of a session.
#[derive(Debug)]
pub struct Script {
    /// The slot id the next call's result will be taken from.
    pub last_rid: u32,
    /// The timeout applied to every call, in milliseconds, once set.
    pub timeout_ms: Option<u64>,
    /// The names of the registered namespaces, each registered once.
    pub namespaces: Vec<String>,
    /// The pending results delivered by the return callback.
    pub slots: SlotStore,
}

/// The `console.log` shim evaluated before any loaded source: the engine
/// offers no `console` of its own.
pub open spec fn console_shim_text() -> Seq<char> {
    "const console = { log: function(expr) { Deno.core.print(expr + '\\n', false); } };"@
}

/// The isolating wrapper that registering a namespace evaluates once: the
/// namespace's source runs inside a closure, and the entry function is
/// exposed with a catch that turns a thrown value into a tagged
/// `{ error: ... }` object.
pub open spec fn namespace_wrapper_text(ns: Seq<char>, entry: Seq<char>, code: Seq<char>) -> Seq<
    char,
> {
    "var "@ + ns + " = (function() {\n"@ + code + "\nreturn { "@ + entry
        + ": function (input) { try { return "@ + entry
        + "(input) } catch (e) { return { error: `${e}` } } } }\n})();\n"@ + ns + "."@ + entry
}

/// The per-call invocation source: an async wrapper that awaits the target
/// when it is an async function, normalises `undefined` to `null`, and
/// hands the result to the return callback.
pub open spec fn invocation_text(target: Seq<char>, args: Seq<char>) -> Seq<char> {
    "(async () => { let __rust_result = "@ + target
        + ".constructor.name === 'AsyncFunction' ? await "@ + target + "("@ + args + ") : "@
        + target + "("@ + args
        + "); if (typeof __rust_result === 'undefined') __rust_result = null; Deno.core.ops.op_return(__rust_result); })()"@
}

/// The name a call addresses: the function itself, or `namespace.function`.
pub open spec fn qualified_name(ns: Option<Seq<char>>, fn_name: Seq<char>) -> Seq<char> {
    match ns {
        Some(n) => n + "."@ + fn_name,
        None => fn_name,
    }
}

impl Script {
    /// The names of the registered namespaces, as character sequences.
    pub open spec fn namespace_views(&self) -> Seq<Seq<char>> {
        Seq::new(self.namespaces@.len(), |i: int| self.namespaces@[i]@)
    }

    /// Whether a namespace of this name was registered.
    pub open spec fn has_namespace(&self, name: Seq<char>) -> bool {
        self.namespace_views().contains(name)
    }

    /// The session's bookkeeping is sound: the pending-result store is
    /// well formed, no slot the store will assign was consumed yet, and no
    /// namespace name is registered twice.
    pub open spec fn wf(&self) -> bool {
        &&& self.slots.wf()
        &&& self.last_rid as int <= self.slots.spec_next_id()
        &&& forall|a: int, b: int|
            0 <= a < b < self.namespace_views().len() ==> #[trigger] self.namespace_views()[a]
                != #[trigger] self.namespace_views()[b]
    }

    /// A fresh session: no calls made, no namespaces, no timeout.
    pub fn new() -> (s: Script)
        ensures
            s.wf(),
            s.last_rid == 0,
            s.timeout_ms is None,
            s.namespace_views() == Seq::<Seq<char>>::empty(),
            s.slots.rep() == Seq::<(int, SpecJson)>::empty(),
    {
        let s = Script {
            last_rid: 0,
            timeout_ms: None,
            namespaces: Vec::new(),
            slots: SlotStore::new(),
        };
        proof {
            assert(s.namespace_views() =~= Seq::<Seq<char>>::empty());
        }
        s
    }

    /// Equips the session with a timeout: any call is aborted after
    /// `timeout_ms` milliseconds.  A timeout can be set once, and must not
    /// be zero.
    pub fn with_timeout(self, timeout_ms: u64) -> (s: Script)
        requires
            self.timeout_ms is None,
            timeout_ms > 0,
        ensures
            s.timeout_ms == Some(timeout_ms),
            s.last_rid == self.last_rid,
            s.namespaces == self.namespaces,
            s.slots == self.slots,
    {
        Script { timeout_ms: Some(timeout_ms), ..self }
    }

    /// The configured timeout, if any, for the embedder to arm a watcher.
    pub fn timeout(&self) -> (t: Option<u64>)
        ensures
            t == self.timeout_ms,
    {
        self.timeout_ms
    }

    /// The source a fresh load evaluates: the `console.log` shim, then the
    /// caller's code.
    pub fn prelude_source(js_code: &str) -> (s: String)
        ensures
            s@ == console_shim_text() + js_code@,
    {
        let mut s = String::from_str(
            "const console = { log: function(expr) { Deno.core.print(expr + '\\n', false); } };",
        );
        s.append(js_code);
        s
    }

    /// Whether a namespace of this name was registered, executably.
    #[verifier::loop_isolation(false)]
    pub fn knows_namespace(&self, name: &str) -> (b: bool)
        ensures
            b == self.has_namespace(name@),
    {
        let needle = name.to_owned();
        proof {
            assert(needle@ == name@);
        }
        let n = self.namespaces.len();
        let mut i: usize = 0;
        while i < n
            invariant
                i <= n,
                n == self.namespaces@.len(),
                forall|j: int| 0 <= j < i ==> self.namespace_views()[j] != name@,
            decreases n - i,
        {
            proof {
                assert(self.namespace_views()[i as int] == self.namespaces@[i as int]@);
            }
            let same = self.namespaces[i] == needle;
            proof {
                assert(same == (self.namespaces@[i as int]@ == needle@));
            }
            if same {
                proof {
                    assert(self.namespace_views()[i as int] == name@);
                    assert(self.namespace_views().contains(name@));
                }
                return true;
            }
            i = i + 1;
        }
        proof {
            assert(forall|j: int| 0 <= j < n ==> self.namespace_views()[j] != name@);
        }
        false
    }

    /// Records a namespace as registered.  Registration is idempotent: a
    /// name already present is left alone and `false` comes back.
    pub fn register_namespace(&mut self, name: &str) -> (fresh: bool)
        requires
            old(self).wf(),
        ensures
            final(self).wf(),
            fresh == !old(self).has_namespace(name@),
            fresh ==> final(self).namespace_views() == old(self).namespace_views().push(name@),
            !fresh ==> final(self).namespaces == old(self).namespaces,
            final(self).has_namespace(name@),
            final(self).last_rid == old(self).last_rid,
            final(self).timeout_ms == old(self).timeout_ms,
            final(self).slots == old(self).slots,
    {
        if self.knows_namespace(name) {
            false
        } else {
            self.namespaces.push(name.to_owned());
            proof {
                assert(final(self).namespace_views() =~= old(self).namespace_views().push(name@));
                let views = final(self).namespace_views();
                assert(views[views.len() - 1] == name@);
                assert forall|a: int, b: int|
                    0 <= a < b < views.len() implies #[trigger] views[a] != #[trigger] views[b] by {
                    if b < views.len() - 1 {
                        assert(views[a] == old(self).namespace_views()[a]);
                        assert(views[b] == old(self).namespace_views()[b]);
                    } else {
                        assert(views[a] == old(self).namespace_views()[a]);
                        assert(!old(self).namespace_views().contains(name@));
                        assert(old(self).namespace_views()[a] != name@);
                    }
                }
            }
            true
        }
    }

    /// The wrapper source registering a namespace evaluates.
    pub fn namespace_source(namespace: &str, entry_fn: &str, js_code: &str) -> (s: String)
        ensures
            s@ == namespace_wrapper_text(namespace@, entry_fn@, js_code@),
    {
        let mut s = String::from_str("var ");
        s.append(namespace);
        s.append(" = (function() {\n");
        s.append(js_code);
        s.append("\nreturn { ");
        s.append(entry_fn);
        s.append(": function (input) { try { return ");
        s.append(entry_fn);
        s.append("(input) } catch (e) { return { error: `${e}` } } } }\n})();\n");
        s.append(namespace);
        s.append(".");
        s.append(entry_fn);
        proof {
            assert(s@ =~= namespace_wrapper_text(namespace@, entry_fn@, js_code@));
        }
        s
    }

    /// The invocation source for one call of `fn_name`, optionally
    /// namespace-qualified, with a pre-encoded argument list.
    pub fn invocation_source(namespace: Option<&str>, fn_name: &str, json_args: &str) -> (s:
        String)
        ensures
            s@ == invocation_text(
                qualified_name(
                    match namespace {
                        Some(n) => Some(n@),
                        None => None,
                    },
                    fn_name@,
                ),
                json_args@,
            ),
    {
        let mut target = String::new();
        match namespace {
            Some(n) => {
                target.append(n);
                target.append(".");
                target.append(fn_name);
            },
            None => {
                target.append(fn_name);
            },
        }
        let mut s = String::from_str("(async () => { let __rust_result = ");
        s.append(target.as_str());
        s.append(".constructor.name === 'AsyncFunction' ? await ");
        s.append(target.as_str());
        s.append("(");
        s.append(json_args);
        s.append(") : ");
        s.append(target.as_str());
        s.append("(");
        s.append(json_args);
        s.append(
            "); if (typeof __rust_result === 'undefined') __rust_result = null; Deno.core.ops.op_return(__rust_result); })()",
        );
        proof {
            assert(s@ =~= invocation_text(
                qualified_name(
                    match namespace {
                        Some(n) => Some(n@),
                        None => None,
                    },
                    fn_name@,
                ),
                json_args@,
            ));
        }
        s
    }

    /// Files a value the return callback delivered, under a fresh slot id.
    pub fn deliver_result(&mut self, value: JsValue) -> (id: u32)
        requires
            old(self).wf(),
            old(self).slots.spec_next_id() < u32::MAX,
        ensures
            final(self).wf(),
            id as int == old(self).slots.spec_next_id(),
            final(self).slots.rep() == old(self).slots.rep().push((id as int, value@)),
            final(self).slots.spec_next_id() == old(self).slots.spec_next_id() + 1,
            final(self).last_rid == old(self).last_rid,
            final(self).timeout_ms == old(self).timeout_ms,
            final(self).namespaces == old(self).namespaces,
    {
        let id = self.slots.deliver(value);
        proof {
            assert(self.namespace_views() =~= old(self).namespace_views());
        }
        id
    }

    /// Takes the one result of the call that just ran, and advances the
    /// slot counter; the slot is retired either way.  An empty slot after
    /// the event loop quiesced means the function never signalled: the
    /// call was forcibly terminated, or the callback never ran.
    pub fn collect_result(&mut self, terminated: bool) -> (r: Result<JsValue, CallError>)
        requires
            old(self).wf(),
            old(self).last_rid < u32::MAX,
        ensures
            final(self).wf(),
            r is Ok <==> spec_lookup(old(self).slots.rep(), old(self).last_rid as int) is Some,
            r matches Ok(v) ==> spec_lookup(old(self).slots.rep(), old(self).last_rid as int)
                == Some(v@),
            r is Ok ==> final(self).last_rid == old(self).last_rid + 1,
            r is Err ==> final(self).last_rid == old(self).last_rid,
            r is Err ==> (if terminated {
                r matches Err(e) && e is Timeout
            } else {
                r matches Err(e) && e is NoResult
            }),
            spec_lookup(final(self).slots.rep(), old(self).last_rid as int) is None,
            forall|other: int|
                other != old(self).last_rid as int ==> spec_lookup(final(self).slots.rep(), other)
                    == spec_lookup(old(self).slots.rep(), other),
            final(self).timeout_ms == old(self).timeout_ms,
            final(self).namespaces == old(self).namespaces,
    {
        proof {
            assert(self.namespace_views() =~= old(self).namespace_views());
        }
        match self.slots.take(self.last_rid) {
            Some(v) => {
                proof {
                    crate::slot::lemma_lookup_index(
                        old(self).slots.rep(),
                        old(self).last_rid as int,
                    );
                    let j = choose|j: int|
                        0 <= j < old(self).slots.rep().len() && (#[trigger] old(
                            self,
                        ).slots.rep()[j]).0 == old(self).last_rid as int;
                    assert(old(self).slots.rep()[j].0 < old(self).slots.spec_next_id());
                }
                self.last_rid = self.last_rid + 1;
                Ok(v)
            },
            None => {
                if terminated {
                    Err(CallError::Timeout)
                } else {
                    Err(CallError::NoResult)
                }
            },
        }
    }

    /// Classifies a failure the engine reported while executing a call:
    /// after a forced termination it is a timeout, otherwise the engine's
    /// message stands as a runtime error.  The two are distinct from each
    /// other and from any decode error, so callers can tell a runaway
    /// script from a missing function and from a shape mismatch.
    pub fn classify_execute_failure(message: String, terminated: bool) -> (e: CallError)
        ensures
            terminated ==> e is Timeout,
            !terminated ==> (e matches CallError::EngineRuntime(m) && m@ == message@),
            !(e is DecodeError),
            !(e is Application),
    {
        if terminated {
            CallError::Timeout
        } else {
            CallError::EngineRuntime(message)
        }
    }
}

/// The tagged error a namespace wrapper returns in place of a thrown
/// value: the message under the object's `error` key, when that key holds
/// a string.
pub open spec fn error_tag(v: SpecJson) -> Option<Seq<char>> {
    match v {
        SpecJson::Obj(fields) => fields_error_tag(fields),
        _ => None,
    }
}

pub open spec fn fields_error_tag(fields: Seq<(Seq<char>, SpecJson)>) -> Option<Seq<char>>
    decreases fields,
{
    if fields.len() == 0 {
        None
    } else if fields[0].0 == "error"@ {
        match fields[0].1 {
            SpecJson::Str(m) => Some(m),
            _ => None,
        }
    } else {
        fields_error_tag(fields.drop_first())
    }
}

/// Finds the first `error` field, yielding its message when it holds a
/// string.
#[verifier::loop_isolation(false)]
fn scan_error_tag(fields: &Vec<(String, JsValue)>) -> (r: Option<String>)
    ensures
        r matches Some(m) ==> fields_error_tag(crate::json::obj_rep(fields@)) == Some(m@),
        r is None ==> fields_error_tag(crate::json::obj_rep(fields@)) is None,
{
    let ghost rep = crate::json::obj_rep(fields@);
    proof {
        crate::json::lemma_obj_rep_index(fields@);
        assert(rep.skip(0) =~= rep);
    }
    let needle = String::from_str("error");
    let n = fields.len();
    let mut i: usize = 0;
    while i < n
        invariant
            i <= n,
            fields_error_tag(rep.skip(i as int)) == fields_error_tag(rep),
        decreases n - i,
    {
        proof {
            assert(rep.skip(i as int)[0] == rep[i as int]);
        }
        if fields[i].0 == needle {
            proof {
                assert(rep[i as int].0 == "error"@);
            }
            match &fields[i].1 {
                JsValue::Str(m) => {
                    return Some(m.clone());
                },
                _ => {
                    return None;
                },
            }
        }
        proof {
            assert(rep.skip(i as int).drop_first() =~= rep.skip(i + 1));
        }
        i = i + 1;
    }
    proof {
        assert(rep.skip(n as int) =~= Seq::<(Seq<char>, SpecJson)>::empty());
    }
    None
}

/// Unwraps the `{ error: ... }` tagging convention of namespace calls: a
/// tagged object becomes an application error carrying the thrown text,
/// every other value passes through untouched.
pub fn unwrap_namespace_result(v: JsValue) -> (r: Result<JsValue, CallError>)
    ensures
        error_tag(v@) matches Some(m) ==> (r matches Err(e) && e matches CallError::Application(t)
            && t@ == m),
        error_tag(v@) is None ==> (r matches Ok(out) && out@ == v@),
{
    let tag = match &v {
        JsValue::Obj(fields) => scan_error_tag(fields),
        _ => None,
    };
    match tag {
        Some(m) => Err(CallError::Application(m)),
        None => Ok(v),
    }
}

} // verus!
