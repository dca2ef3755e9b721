//! Service-level rules over the settings records: the order of configured
//! windows, the order given to a new one, and the window configurations the
//! window manager is loaded with.
use vstd::prelude::*;
use crate::curd_proxies;
use crate::error::AppError;
use crate::models::{copy_opt_string, WindowConfig, WindowConfigView};
use crate::text::{decimal, i32_decimal, string_from_chars};
use crate::types::{CreateProxyRequest, UpdateProxyRequest, WindowInfo};

verus! {

/// Proxies for the settings pages.
pub struct ProxyInfoService;

/// Configured windows for the settings pages.
pub struct WindowInfoService;

/// Window configurations for the window manager.
pub struct WindowManagerService;

/// Windows in order of their `sort_order`.
pub open spec fn ordered(s: Seq<WindowInfo>) -> bool {
    forall|i: int, j: int| 0 <= i <= j < s.len() ==> #[trigger] s[i].sort_order <= #[trigger] s[j].sort_order
}

/// The windows whose `sort_order` is `k`, in their order.
pub open spec fn with_order(s: Seq<WindowInfo>, k: i32) -> Seq<WindowInfo>
    decreases s.len(),
{
    if s.len() == 0 {
        Seq::empty()
    } else if s.last().sort_order == k {
        with_order(s.drop_last(), k).push(s.last())
    } else {
        with_order(s.drop_last(), k)
    }
}

proof fn lemma_with_order_concat(a: Seq<WindowInfo>, b: Seq<WindowInfo>, k: i32)
    ensures
        with_order(a + b, k) == with_order(a, k) + with_order(b, k),
    decreases b.len(),
{
    if b.len() == 0 {
        assert(a + b =~= a);
        assert(with_order(b, k) =~= Seq::<WindowInfo>::empty());
        assert(with_order(a, k) + with_order(b, k) =~= with_order(a, k));
    } else {
        assert((a + b).drop_last() =~= a + b.drop_last());
        assert((a + b).last() == b.last());
        lemma_with_order_concat(a, b.drop_last(), k);
        if b.last().sort_order == k {
            assert(with_order(a, k) + with_order(b, k) =~= (with_order(a, k) + with_order(
                b.drop_last(),
                k,
            )).push(b.last()));
        }
    }
}

proof fn lemma_with_order_none(b: Seq<WindowInfo>, k: i32)
    requires
        forall|i: int| 0 <= i < b.len() ==> #[trigger] b[i].sort_order != k,
    ensures
        with_order(b, k) == Seq::<WindowInfo>::empty(),
    decreases b.len(),
{
    if b.len() > 0 {
        assert forall|i: int| 0 <= i < b.drop_last().len() implies #[trigger] b.drop_last()[i].sort_order != k by {
            assert(b.drop_last()[i] == b[i]);
        }
        lemma_with_order_none(b.drop_last(), k);
        assert(b.last() == b[b.len() - 1]);
    }
}

proof fn lemma_with_order_single(x: WindowInfo, k: i32)
    ensures
        with_order(seq![x], k) == (if x.sort_order == k {
            seq![x]
        } else {
            Seq::<WindowInfo>::empty()
        }),
{
    let s = seq![x];
    assert(s.drop_last() =~= Seq::<WindowInfo>::empty());
    assert(with_order(Seq::<WindowInfo>::empty(), k) == Seq::<WindowInfo>::empty());
    assert(s.last() == x);
    if x.sort_order == k {
        assert(Seq::<WindowInfo>::empty().push(x) =~= seq![x]);
    }
}

impl WindowInfoService {
    /// The windows ordered by `sort_order`, windows with the same order
    /// keeping their relative order.
    pub fn sort_by_order(windows: Vec<WindowInfo>) -> (r: Vec<WindowInfo>)
        ensures
            ordered(r@),
            r@.len() == windows@.len(),
            forall|k: i32| with_order(r@, k) == #[trigger] with_order(windows@, k),
    {
        let ghost orig = windows@;
        let mut src = windows;
        let mut out: Vec<WindowInfo> = Vec::new();
        let ghost mut done: int = 0;
        assert(orig.subrange(0, 0) =~= Seq::<WindowInfo>::empty());
        assert(orig.subrange(0, orig.len() as int) =~= orig);
        while src.len() > 0
            invariant
                0 <= done <= orig.len(),
                src@ == orig.subrange(done, orig.len() as int),
                ordered(out@),
                out@.len() == done,
                forall|k: i32| with_order(out@, k) == #[trigger] with_order(orig.subrange(0, done), k),
            decreases src@.len(),
        {
            let x = src.remove(0);
            assert(x == orig[done]);
            let mut p: usize = 0;
            while p < out.len() && out[p].sort_order <= x.sort_order
                invariant
                    p <= out@.len(),
                    forall|i: int| 0 <= i < p ==> #[trigger] out@[i].sort_order <= x.sort_order,
                decreases out@.len() - p,
            {
                p = p + 1;
            }
            let ghost before = out@;
            let ghost a = before.subrange(0, p as int);
            let ghost b = before.subrange(p as int, before.len() as int);
            proof {
                assert forall|i: int| 0 <= i < b.len() implies #[trigger] b[i].sort_order > x.sort_order by {
                    assert(b[i] == before[p + i]);
                    assert(before[p as int].sort_order > x.sort_order);
                    assert(before[p as int].sort_order <= before[p + i].sort_order);
                }
            }
            out.insert(p, x);
            proof {
                assert(out@ =~= a + seq![x] + b);
                assert(before =~= a + b);
                let pre = orig.subrange(0, done);
                let nxt = orig.subrange(0, done + 1);
                assert(nxt =~= pre.push(x));
                assert forall|k: i32| with_order(out@, k) == #[trigger] with_order(nxt, k) by {
                    assert(with_order(before, k) == with_order(pre, k));
                    lemma_with_order_concat(a + seq![x], b, k);
                    lemma_with_order_concat(a, seq![x], k);
                    lemma_with_order_concat(a, b, k);
                    lemma_with_order_single(x, k);
                    assert(nxt.drop_last() =~= pre);
                    assert(nxt.last() == x);
                    let wa = with_order(a, k);
                    let wb = with_order(b, k);
                    assert(with_order(out@, k) == wa + with_order(seq![x], k) + wb);
                    assert(with_order(pre, k) == wa + wb);
                    if x.sort_order == k {
                        lemma_with_order_none(b, k);
                        assert(with_order(nxt, k) == with_order(pre, k).push(x));
                        assert(wa + seq![x] + wb =~= (wa + wb).push(x));
                    } else {
                        assert(with_order(nxt, k) == with_order(pre, k));
                        assert(wa + Seq::<WindowInfo>::empty() + wb =~= wa + wb);
                    }
                }
                assert(ordered(out@)) by {
                    assert forall|i: int, j: int| 0 <= i <= j < out@.len() implies #[trigger] out@[i].sort_order
                        <= #[trigger] out@[j].sort_order by {
                        if j < p {
                            assert(out@[i] == before[i]);
                            assert(out@[j] == before[j]);
                        } else if j == p {
                            if i < p {
                                assert(out@[i] == before[i]);
                            }
                        } else if i < p {
                            assert(out@[i] == before[i]);
                            assert(out@[j] == before[j - 1]);
                            assert(before[i].sort_order <= before[j - 1].sort_order);
                        } else if i == p {
                            assert(out@[j] == before[j - 1]);
                            assert(out@[j] == b[j - 1 - p]);
                        } else {
                            assert(out@[i] == before[i - 1]);
                            assert(out@[j] == before[j - 1]);
                        }
                    }
                }
                done = done + 1;
                assert(src@ =~= orig.subrange(done, orig.len() as int));
            }
        }
        assert(orig.subrange(0, done) =~= orig);
        out
    }

    /// The order a new window gets: one past the largest order in use (1
    /// when there is none).
    pub fn next_sort_order(orders: &[i32]) -> (r: i32)
        requires
            forall|i: int| 0 <= i < orders@.len() ==> #[trigger] orders@[i] < i32::MAX,
        ensures
            orders@.len() == 0 ==> r == 1,
            orders@.len() > 0 ==> (exists|i: int| 0 <= i < orders@.len() && r == #[trigger] orders@[i] + 1)
                && forall|i: int| 0 <= i < orders@.len() ==> #[trigger] orders@[i] < r,
    {
        if orders.len() == 0 {
            return 1;
        }
        let mut best: i32 = orders[0];
        let mut i: usize = 1;
        while i < orders.len()
            invariant
                1 <= i <= orders@.len(),
                exists|j: int| 0 <= j < i && best == #[trigger] orders@[j],
                forall|j: int| 0 <= j < i ==> #[trigger] orders@[j] <= best,
            decreases orders@.len() - i,
        {
            if orders[i] > best {
                best = orders[i];
            }
            i = i + 1;
        }
        proof {
            let j = choose|j: int| 0 <= j < i && best == #[trigger] orders@[j];
            assert(orders@[j] < i32::MAX);
        }
        best + 1
    }

    /// The error for a window that names a proxy that does not exist.
    pub fn missing_proxy(proxy_id: i32) -> (r: AppError)
        ensures
            r matches AppError::ValidationError(m) && m@ == "ID为"@ + decimal(proxy_id as int) + "的代理不存在"@,
    {
        let d = i32_decimal(proxy_id);
        let digits = string_from_chars(d.as_slice());
        AppError::ValidationError(String::from_str("ID为").concat(digits.as_str()).concat("的代理不存在"))
    }
}

/// The configuration a configured window gives the window manager.
pub open spec fn config_of(w: WindowInfo) -> WindowConfigView {
    WindowConfigView {
        title: w.title@,
        url: w.url@,
        icon: match w.icon {
            Some(s) => Some(s@),
            None => None,
        },
        shortcut: match w.shortcut {
            Some(s) => Some(s@),
            None => None,
        },
        proxy_id: w.proxy_id,
        is_default: w.is_default,
    }
}

impl WindowManagerService {
    /// The configuration of one configured window.
    pub fn config_from_info(w: &WindowInfo) -> (r: WindowConfig)
        ensures
            r@ == config_of(*w),
    {
        WindowConfig {
            title: w.title.clone(),
            url: w.url.clone(),
            icon: copy_opt_string(&w.icon),
            shortcut: copy_opt_string(&w.shortcut),
            proxy_id: w.proxy_id,
            is_default: w.is_default,
        }
    }

    /// The configurations of configured windows, in order of their
    /// `sort_order` (windows with the same order keep theirs).
    pub fn load_window_configs(windows: Vec<WindowInfo>) -> (r: Vec<WindowConfig>)
        ensures
            exists|s: Seq<WindowInfo>|
                ordered(s) && s.len() == windows@.len() && (forall|k: i32| with_order(s, k) == #[trigger] with_order(windows@, k))
                    && r@.len() == s.len() && forall|i: int| 0 <= i < s.len() ==> (#[trigger] r@[i])@ == config_of(s[i]),
    {
        let sorted = WindowInfoService::sort_by_order(windows);
        let mut r: Vec<WindowConfig> = Vec::new();
        let mut i: usize = 0;
        while i < sorted.len()
            invariant
                i <= sorted@.len(),
                r@.len() == i,
                forall|j: int| 0 <= j < i ==> (#[trigger] r@[j])@ == config_of(sorted@[j]),
            decreases sorted@.len() - i,
        {
            let c = Self::config_from_info(&sorted[i]);
            r.push(c);
            i = i + 1;
        }
        r
    }
}

impl ProxyInfoService {
    /// The checks a new proxy passes before it is stored.
    pub fn check_create(request: &CreateProxyRequest) -> (r: Result<(), AppError>)
        ensures
            r is Ok <==> (request.proxy_type@.len() > 0 && request.host@.len() > 0
                && curd_proxies::port_valid(request.port)),
            r matches Err(e) ==> (e matches AppError::ValidationError(m) && m@ == (if request.proxy_type@.len() == 0 {
                "代理类型不能为空"@
            } else if request.host@.len() == 0 {
                "代理主机地址不能为空"@
            } else {
                "无效的端口号(1-65535)"@
            })),
    {
        curd_proxies::Insert::validate(request.proxy_type.as_str(), request.host.as_str(), request.port)
    }

    /// The checks a proxy change passes before it is stored.
    pub fn check_update(request: &UpdateProxyRequest) -> (r: Result<(), AppError>)
        ensures
            r is Ok <==> !((request.proxy_type matches Some(t) && t@.len() == 0)
                || (request.host matches Some(h) && h@.len() == 0)
                || (request.port matches Some(p) && !curd_proxies::port_valid(p))),
            r matches Err(e) ==> (e matches AppError::ValidationError(m) && m@ == (if request.proxy_type matches Some(
                t,
            ) && t@.len() == 0 {
                "代理类型不能为空"@
            } else if request.host matches Some(h) && h@.len() == 0 {
                "代理主机地址不能为空"@
            } else {
                "无效的端口号(1-65535)"@
            })),
    {
        curd_proxies::Update::validate(&request.proxy_type, &request.host, request.port)
    }
}

} // verus!
