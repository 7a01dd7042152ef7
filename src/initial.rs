//! The script every widget page runs before its own: it gives the page an
//! `rpc.call(method, data)` that posts a call to the host process and
//! resolves with the host's answer, and a few facts about the host.
use vstd::prelude::*;
use vstd::string::*;

verus! {

/// The script up to the host facts.
pub const SCRIPT_HEAD: &'static str = r#"
(function() {
function Rpc() {
    const self = this;
    this._promises = {};

    this._error = (id, error) => {
        if(this._promises[id]){
            this._promises[id].reject(error);
            delete this._promises[id];
        }
    }

    this._result = (id, result) => {
        if(this._promises[id]){
            if (result.status == 200)
            try {
                this._promises[id].resolve(JSON.parse(result.data))
            } catch {
                this._promises[id].resolve(result.data)
            }
            else
                this._promises[id].reject({ code: result.status, data: result.data })
            delete this._promises[id];
        }
    }

    this.call = function(method, data) {
        let array = new Uint32Array(1);
        window.crypto.getRandomValues(array);
        const id = array[0];
        const payload = {
            method_id: id,
            method: method,
            data: JSON.stringify(data),
        };
        const promise = new Promise((resolve, reject) => {
            self._promises[id] = {resolve, reject};
        });
        window.ipc.postMessage(JSON.stringify(payload));
        return promise;
    }
}
window.external = window.external || {};
window.external.rpc = new Rpc();
window.rpc = window.external.rpc;
window.general = window.general || {};
"#;

/// The script after the host facts.
pub const SCRIPT_TAIL: &'static str = r#"
})();"#;

/// The statements that record the host's operating system and architecture.
pub open spec fn host_facts(os: Seq<char>, arch: Seq<char>) -> Seq<char> {
    "window.general.os = \""@ + os + "\";"@ + "window.general.os_arch = \""@ + arch + "\";"@
}

/// The script for a host with the given operating system and architecture.
pub fn get_initial_js(os: &str, arch: &str) -> (r: String)
    ensures
        r@ == SCRIPT_HEAD@ + host_facts(os@, arch@) + SCRIPT_TAIL@,
{
    let mut r = SCRIPT_HEAD.to_owned();
    r.append("window.general.os = \"");
    r.append(os);
    r.append("\";");
    r.append("window.general.os_arch = \"");
    r.append(arch);
    r.append("\";");
    r.append(SCRIPT_TAIL);
    r
}

} // verus!
