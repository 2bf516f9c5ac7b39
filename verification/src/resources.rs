//! The Fluent resources bundled with the library.

use vstd::prelude::*;
use crate::locale::Locale;

verus! {

pub const EN_APP_FTL: &'static str = "# Strings shared across the app.
app-name = Warp
app-welcome = Welcome, { $name }!
common-save = Save
common-cancel = Cancel
common-close = Close
common-ok = OK
";

pub const EN_SETTINGS_FTL: &'static str = "# Settings view.
settings-title = Settings
settings-account-log-out = Log out
settings-tooltip-local-only = This setting is not synced to your other devices
settings-privacy-secret-redaction-title = Secret redaction
settings-privacy-add-regex-invalid = Invalid regex
settings-privacy-policy-title = Privacy policy
settings-language-title = Language
settings-language-system = Follow system
";

pub const ZH_CN_APP_FTL: &'static str = "# Strings shared across the app.
app-name = Warp
app-welcome = 欢迎，{ $name }！
common-save = 保存
common-cancel = 取消
common-close = 关闭
common-ok = 确定
";

pub const ZH_CN_SETTINGS_FTL: &'static str = "# Settings view.
settings-title = 设置
settings-account-log-out = 退出登录
settings-tooltip-local-only = 此设置不会同步到你的其他设备
settings-privacy-secret-redaction-title = 敏感信息遮盖
settings-privacy-add-regex-invalid = 正则表达式无效
settings-privacy-policy-title = 隐私政策
settings-language-title = 语言
settings-language-system = 跟随系统
";

/// One bundled FTL file: its locale, its file name and its text.
#[derive(Clone, Copy, Debug, PartialEq, Eq)]
pub struct BundleResource {
    pub locale: Locale,
    pub path: &'static str,
    pub source: &'static str,
}

/// A bundled resource as plain values: locale, file name, text.
pub type ResourceView = (Locale, Seq<char>, Seq<char>);

impl View for BundleResource {
    type V = ResourceView;

    open spec fn view(&self) -> ResourceView {
        (self.locale, self.path@, self.source@)
    }
}

/// The bundled resources, in the order the library reads them.
pub open spec fn spec_bundled_resources() -> Seq<ResourceView> {
    seq![
        (Locale::En, "app.ftl"@, EN_APP_FTL@),
        (Locale::En, "settings.ftl"@, EN_SETTINGS_FTL@),
        (Locale::ZhCn, "app.ftl"@, ZH_CN_APP_FTL@),
        (Locale::ZhCn, "settings.ftl"@, ZH_CN_SETTINGS_FTL@),
    ]
}

/// The views of a sequence of resources.
pub open spec fn resources_view(rs: Seq<BundleResource>) -> Seq<ResourceView> {
    rs.map_values(|r: BundleResource| r@)
}

/// The resources of `rs` that belong to `locale`, in order.
pub open spec fn spec_resources_of(rs: Seq<ResourceView>, locale: Locale) -> Seq<ResourceView>
    decreases rs.len(),
{
    if rs.len() == 0 {
        Seq::empty()
    } else if rs.last().0 == locale {
        spec_resources_of(rs.drop_last(), locale).push(rs.last())
    } else {
        spec_resources_of(rs.drop_last(), locale)
    }
}

/// All bundled resources.
pub fn bundled_resources() -> (res: Vec<BundleResource>)
    ensures
        resources_view(res@) == spec_bundled_resources(),
{
    let res = vec![
        BundleResource { locale: Locale::En, path: "app.ftl", source: EN_APP_FTL },
        BundleResource { locale: Locale::En, path: "settings.ftl", source: EN_SETTINGS_FTL },
        BundleResource { locale: Locale::ZhCn, path: "app.ftl", source: ZH_CN_APP_FTL },
        BundleResource { locale: Locale::ZhCn, path: "settings.ftl", source: ZH_CN_SETTINGS_FTL },
    ];
    assert(resources_view(res@) =~= spec_bundled_resources());
    res
}

/// The bundled resources of one locale, in order.
pub fn resources_for_locale(locale: Locale) -> (res: Vec<BundleResource>)
    ensures
        resources_view(res@) == spec_resources_of(spec_bundled_resources(), locale),
{
    let all = bundled_resources();
    let mut out: Vec<BundleResource> = Vec::new();
    let mut i: usize = 0;
    while i < all.len()
        invariant
            i <= all@.len(),
            resources_view(all@) == spec_bundled_resources(),
            resources_view(out@) == spec_resources_of(resources_view(all@).take(i as int), locale),
        decreases all@.len() - i,
    {
        let ghost before = resources_view(all@).take(i as int);
        assert(resources_view(all@).take(i + 1).drop_last() =~= before);
        if all[i].locale == locale {
            out.push(all[i]);
            assert(resources_view(out@) =~= spec_resources_of(before, locale).push(all@[i as int]@));
        }
        i = i + 1;
    }
    assert(resources_view(all@).take(all@.len() as int) =~= resources_view(all@));
    out
}

/// The bundled texts are short: each has fewer than 4096 characters.
pub proof fn lemma_bundled_sources_short()
    ensures
        forall|i: int|
            0 <= i < spec_bundled_resources().len() ==> (#[trigger] spec_bundled_resources()[i]).2.len()
                < 4096,
{
    reveal_strlit("# Strings shared across the app.
app-name = Warp
app-welcome = Welcome, { $name }!
common-save = Save
common-cancel = Cancel
common-close = Close
common-ok = OK
");
    reveal_strlit("# Settings view.
settings-title = Settings
settings-account-log-out = Log out
settings-tooltip-local-only = This setting is not synced to your other devices
settings-privacy-secret-redaction-title = Secret redaction
settings-privacy-add-regex-invalid = Invalid regex
settings-privacy-policy-title = Privacy policy
settings-language-title = Language
settings-language-system = Follow system
");
    reveal_strlit("# Strings shared across the app.
app-name = Warp
app-welcome = 欢迎，{ $name }！
common-save = 保存
common-cancel = 取消
common-close = 关闭
common-ok = 确定
");
    reveal_strlit("# Settings view.
settings-title = 设置
settings-account-log-out = 退出登录
settings-tooltip-local-only = 此设置不会同步到你的其他设备
settings-privacy-secret-redaction-title = 敏感信息遮盖
settings-privacy-add-regex-invalid = 正则表达式无效
settings-privacy-policy-title = 隐私政策
settings-language-title = 语言
settings-language-system = 跟随系统
");
}

} // verus!
