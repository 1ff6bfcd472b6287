//! The JavaScript that prepares a context before the analysed script runs:
//! browser stubs, instrumentation hooks, the fake environment, and the
//! function discovery pass that runs after it.

use vstd::prelude::*;

verus! {

/// Location and window stubs, evaluated first.
pub const WINDOW_STUBS_JS: &'static str = r#"
const __location = {
    get href() { return 'https://sandbox.local/'; },
    set href(v) {},
    get hostname() { return 'sandbox.local'; },
    set hostname(v) {},
    get host() { return 'sandbox.local'; },
    set host(v) {},
    get protocol() { return 'https:'; },
    set protocol(v) {},
    get port() { return ''; },
    set port(v) {},
    get pathname() { return '/'; },
    set pathname(v) {},
    get search() { return ''; },
    set search(v) {},
    get hash() { return ''; },
    set hash(v) {},
    get origin() { return 'https://sandbox.local'; },
    set origin(v) {}
};

globalThis.location = __location;
globalThis.window = {
    self: globalThis,
    top: globalThis,
    parent: globalThis,
    frames: [],
    length: 0,
    closed: false,
    opener: null,
    name: '',
    status: '',
    defaultStatus: ''
};

Object.defineProperty(globalThis.window, 'location', {
    get: function() { return __location; },
    set: function(v) { },
    enumerable: true,
    configurable: false
});

globalThis.window.window = globalThis.window;

if (typeof window === 'undefined' || typeof window.location === 'undefined' || typeof window.location.hostname === 'undefined') {
    throw new Error('Window/location setup failed!');
}
"#;

/// Instrumentation hooks: every API of interest reports to `__jsnabber_log`
/// with an event name and a payload.
pub const INSTRUMENTATION_JS: &'static str = r#"
(function() {
    const G = globalThis;
    const log = G.__jsnabber_log;
    const nativeAtob = G.__js_atob;
    const OrigProxy = Proxy;
    const R = {
        apply: Reflect.apply,
        construct: Reflect.construct,
        get: Reflect.get,
        has: Reflect.has,
        defineProperty: Object.defineProperty,
        getOwnPropertyNames: Object.getOwnPropertyNames,
        getOwnPropertyDescriptor: Object.getOwnPropertyDescriptor,
        getPrototypeOf: Object.getPrototypeOf,
        setPrototypeOf: Object.setPrototypeOf,
        freeze: Object.freeze,
        create: Object.create,
        fromCharCode: String.fromCharCode,
        charCodeAt: Function.prototype.call.bind(String.prototype.charCodeAt),
        charAt: Function.prototype.call.bind(String.prototype.charAt),
        indexOf: Function.prototype.call.bind(String.prototype.indexOf),
        startsWith: Function.prototype.call.bind(String.prototype.startsWith),
        String: String
    };

    function show(v) {
        try {
            if (typeof v === 'string') return v;
            return R.String(v);
        } catch (e) {
            return '[unprintable]';
        }
    }

    function report(kind, payload) {
        try { log(kind, payload === undefined ? undefined : show(payload)); } catch (e) {}
    }

    // Baseline of the globals that exist before the analysed script runs.
    const baseline = R.getOwnPropertyNames(G).slice();

    function hide(name, value) {
        R.defineProperty(G, name, { value: value, writable: true, enumerable: false, configurable: true });
        baseline.push(name);
    }

    // eval and the Function constructor.
    const nativeEval = G.eval;
    hide('eval', function (src) {
        report('eval', src);
        return nativeEval(src);
    });
    const NativeFunction = Function;
    const FunctionHook = new OrigProxy(NativeFunction, {
        apply(target, thisArg, args) {
            report('FunctionConstructor', args.length > 0 ? args[args.length - 1] : '');
            return R.apply(target, thisArg, args);
        },
        construct(target, args, newTarget) {
            report('FunctionConstructor', args.length > 0 ? args[args.length - 1] : '');
            return R.construct(target, args);
        }
    });
    hide('Function', FunctionHook);

    // String decoding and encoding.
    const B64 = 'ABCDEFGHIJKLMNOPQRSTUVWXYZabcdefghijklmnopqrstuvwxyz0123456789+/';
    hide('atob', function atob(input) {
        report('atob', input);
        return nativeAtob(show(input));
    });
    hide('btoa', function btoa(input) {
        const s = show(input);
        report('btoa', s);
        let out = '';
        for (let i = 0; i < s.length; i += 3) {
            const a = R.charCodeAt(s, i);
            const b = i + 1 < s.length ? R.charCodeAt(s, i + 1) : NaN;
            const c = i + 2 < s.length ? R.charCodeAt(s, i + 2) : NaN;
            if (a > 255 || b > 255 || c > 255) throw new Error('InvalidCharacterError');
            const n = (a << 16) | ((b || 0) << 8) | (c || 0);
            out += R.charAt(B64, (n >> 18) & 63) + R.charAt(B64, (n >> 12) & 63);
            out += b === b ? R.charAt(B64, (n >> 6) & 63) : '=';
            out += c === c ? R.charAt(B64, n & 63) : '=';
        }
        return out;
    });
    const nativeFromCharCode = String.fromCharCode;
    R.defineProperty(String, 'fromCharCode', {
        value: function fromCharCode() {
            report('fromCharCode', arguments.length + ' code units');
            return R.apply(nativeFromCharCode, String, arguments);
        },
        writable: true, enumerable: false, configurable: true
    });

    // Timers are recorded, not run.
    let timerId = 0;
    hide('setTimeout', function setTimeout(fn, delay) { report('timer', 'setTimeout ' + show(delay)); return ++timerId; });
    hide('setInterval', function setInterval(fn, delay) { report('timer', 'setInterval ' + show(delay)); return ++timerId; });
    hide('clearTimeout', function clearTimeout(id) {});
    hide('clearInterval', function clearInterval(id) {});

    // Network.
    function makeResponse() {
        return {
            ok: true, status: 200,
            text: function() { return Promise.resolve(''); },
            json: function() { return Promise.resolve({}); }
        };
    }
    hide('fetch', function fetch(url, options) {
        report('network', 'fetch ' + show(url));
        return Promise.resolve(makeResponse());
    });
    hide('XMLHttpRequest', function XMLHttpRequest() {
        this.readyState = 0;
        this.open = function(method, url) { report('network', 'XMLHttpRequest ' + show(method) + ' ' + show(url)); };
        this.send = function(body) { report('network', 'XMLHttpRequest send'); };
        this.setRequestHeader = function() {};
    });
    hide('WebSocket', function WebSocket(url) {
        report('network', 'WebSocket ' + show(url));
        this.send = function(data) { report('network', 'WebSocket send'); };
        this.close = function() {};
    });

    // Storage.
    function makeStorage(name) {
        const data = {};
        return {
            getItem: function(k) { report('storage', name + '.getItem ' + show(k)); return Object.prototype.hasOwnProperty.call(data, k) ? data[k] : null; },
            setItem: function(k, v) { report('storage', name + '.setItem ' + show(k)); data[k] = show(v); },
            removeItem: function(k) { report('storage', name + '.removeItem ' + show(k)); delete data[k]; },
            clear: function() { report('storage', name + '.clear'); }
        };
    }
    hide('localStorage', makeStorage('localStorage'));
    hide('sessionStorage', makeStorage('sessionStorage'));

    // DOM.
    function makeElement(tag) {
        const el = {
            tagName: show(tag).toUpperCase(),
            style: {},
            children: [],
            setAttribute: function(k, v) { report('dom', 'setAttribute ' + show(k)); },
            getAttribute: function(k) { return null; },
            appendChild: function(child) { report('dom', 'appendChild'); return child; },
            removeChild: function(child) { return child; },
            addEventListener: function() {},
            querySelector: function() { return null; },
            querySelectorAll: function() { return []; }
        };
        return el;
    }
    let cookieJar = '';
    const doc = {
        get cookie() { report('storage', 'document.cookie read'); return cookieJar; },
        set cookie(v) { report('storage', 'document.cookie write'); cookieJar = show(v); },
        createElement: function(tag) { report('dom', 'createElement ' + show(tag)); return makeElement(tag); },
        getElementById: function(id) { return null; },
        getElementsByTagName: function(tag) { return []; },
        querySelector: function(s) { return null; },
        querySelectorAll: function(s) { return []; },
        write: function(s) { report('dom', 'document.write'); },
        addEventListener: function() {},
        body: makeElement('body'),
        head: makeElement('head'),
        documentElement: makeElement('html')
    };
    hide('document', doc);

    // System-level APIs.
    const consoleObj = {};
    const levels = ['log', 'info', 'warn', 'error', 'debug'];
    for (let i = 0; i < levels.length; i++) {
        const level = levels[i];
        consoleObj[level] = function() {
            let text = '';
            for (let j = 0; j < arguments.length; j++) {
                text += (j > 0 ? ' ' : '') + show(arguments[j]);
            }
            report('system', 'console.' + level + ' ' + text);
        };
    }
    hide('console', consoleObj);
    hide('process', { env: {}, argv: [], platform: 'browser', version: '', exit: function() { report('system', 'process.exit'); } });
    hide('require', function require(name) { report('system', 'require ' + show(name)); return {}; });

    // Cryptography.
    const subtle = {};
    const subtleOps = ['encrypt', 'decrypt', 'sign', 'verify', 'digest', 'generateKey', 'importKey', 'exportKey', 'deriveKey', 'deriveBits'];
    for (let i = 0; i < subtleOps.length; i++) {
        const op = subtleOps[i];
        subtle[op] = function() { report('crypto', 'crypto.subtle.' + op); return Promise.resolve({}); };
    }
    hide('crypto', {
        subtle: subtle,
        getRandomValues: function(arr) { report('crypto', 'crypto.getRandomValues'); return arr; }
    });

    // Evasion: proxies and reflection.
    hide('Proxy', new OrigProxy(OrigProxy, {
        construct(target, args, newTarget) {
            report('evasion', 'Proxy created');
            return R.construct(target, args);
        }
    }));

    // Unknown globals resolve, through the prototype of the global object, to
    // a stub that records the access and tolerates any use.
    function makeStub(path) {
        const base = function() {};
        return new OrigProxy(base, {
            get(target, prop) {
                if (typeof prop === 'symbol') {
                    if (prop === Symbol.toPrimitive) return function() { return ''; };
                    return undefined;
                }
                if (prop === 'then') return undefined;
                if (prop === 'toString' || prop === 'valueOf') return function() { return ''; };
                return makeStub(path + '.' + prop);
            },
            apply(target, thisArg, args) { return makeStub(path + '()'); },
            construct(target, args) { return makeStub('new ' + path); }
        });
    }
    const previousProto = R.getPrototypeOf(G);
    const fallbackTarget = R.create(previousProto);
    const magic = new OrigProxy(fallbackTarget, {
        has(target, prop) {
            if (typeof prop === 'symbol') return R.has(target, prop);
            return true;
        },
        get(target, prop, receiver) {
            if (typeof prop === 'symbol' || R.has(target, prop)) return R.get(target, prop, receiver);
            report('evasion', 'Accessed undefined global (via prototype): ' + prop);
            report('undefined_global', prop);
            return makeStub(prop);
        }
    });
    hide('__magic_global_proxy', magic);
    R.setPrototypeOf(G, magic);

    hide('__jsnabber_internals', R.freeze({
        baseline: baseline,
        getOwnPropertyNames: R.getOwnPropertyNames,
        getOwnPropertyDescriptor: R.getOwnPropertyDescriptor,
        indexOf: function(list, item) {
            for (let i = 0; i < list.length; i++) { if (list[i] === item) return i; }
            return -1;
        },
        startsWith: R.startsWith,
        apply: R.apply,
        log: report
    }));
})();
"#;

/// The fake environment: seeded randomness, a frozen clock and the location
/// of the page.
pub const ENVIRONMENT_JS: &'static str = r#"
(function() {
    Math.random = function() { return __jsnabber_random() * (1 / 9007199254740992); };

    const NativeDate = globalThis.Date;
    function FrozenDate(...args) {
        if (args.length === 0) return new NativeDate(__jsnabber_now());
        return new NativeDate(...args);
    }
    FrozenDate.now = function() { return __jsnabber_now(); };
    FrozenDate.prototype = NativeDate.prototype;
    globalThis.Date = FrozenDate;

    globalThis.window = globalThis;
    globalThis.self = globalThis;
    globalThis.location = {
        href: 'https://example.com/',
        hostname: 'example.com',
        protocol: 'https:',
        host: 'example.com',
        pathname: '/',
        search: '',
        hash: '',
        origin: 'https://example.com'
    };
})();
"#;

/// Function discovery: calls the common entry points the script defines, then
/// every other function it added to the global object.
pub const FUNCTION_DISCOVERY_JS: &'static str = r#"
(function() {
    const I = globalThis.__jsnabber_internals;
    if (!I) return;
    const report = I.log;
    const entryPoints = ['main', 'init', 'start', 'run', 'execute', 'onLoad', 'onReady', 'setup',
        'bootstrap', 'launch', 'begin', 'entry', 'onError', 'onComplete', 'onSuccess', 'onInit',
        'onChange', 'onClick', 'onSubmit'];
    const called = [];
    report('function_discovery', 'Starting function discovery');
    for (let i = 0; i < entryPoints.length; i++) {
        const name = entryPoints[i];
        report('function_discovery', 'Probing entry point ' + name);
        let d;
        try { d = I.getOwnPropertyDescriptor(globalThis, name); } catch (e) { continue; }
        if (!d || typeof d.value !== 'function' || I.indexOf(I.baseline, name) >= 0) continue;
        called.push(name);
        report('function_discovery', 'Calling common entry point: ' + name + '()');
        try { I.apply(d.value, globalThis, []); } catch (e) {}
    }
    let names = [];
    try { names = I.getOwnPropertyNames(globalThis); } catch (e) {}
    for (let i = 0; i < names.length; i++) {
        const name = names[i];
        if (I.indexOf(I.baseline, name) >= 0 || I.indexOf(called, name) >= 0) continue;
        if (I.startsWith(name, '__')) continue;
        let d;
        try { d = I.getOwnPropertyDescriptor(globalThis, name); } catch (e) { continue; }
        if (!d || typeof d.value !== 'function') continue;
        report('function_discovery', 'Calling discovered function: ' + name);
        try { I.apply(d.value, globalThis, []); } catch (e) {}
    }
    report('function_discovery', 'Function discovery complete');
})();
"#;

} // verus!
