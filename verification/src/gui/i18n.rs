//! Built-in localization of the desktop client. The daemon's protocol stays
//! language-neutral; only what is shown is translated.

use vstd::prelude::*;
use crate::text::{chars_of, same, texts, trim, trimmed};

verus! {

/// A language of the client.
#[derive(Clone, Copy, Debug, Default, PartialEq, Eq, Structural)]
pub enum Language {
    #[default]
    English,
    SimplifiedChinese,
}

/// The language that a user chose.
#[derive(Clone, Copy, Debug, Default, PartialEq, Eq, Structural)]
pub enum LanguageChoice {
    #[default]
    System,
    English,
    SimplifiedChinese,
}

/// The choice with the given number.
pub open spec fn choice_at(index: u32) -> Option<LanguageChoice> {
    if index == 0 {
        Some(LanguageChoice::System)
    } else if index == 1 {
        Some(LanguageChoice::English)
    } else if index == 2 {
        Some(LanguageChoice::SimplifiedChinese)
    } else {
        None
    }
}

/// How a choice is stored.
pub open spec fn stored_choice(choice: LanguageChoice) -> Seq<char> {
    match choice {
        LanguageChoice::System => "system"@,
        LanguageChoice::English => "en"@,
        LanguageChoice::SimplifiedChinese => "zh-CN"@,
    }
}

/// The choice that a stored text stands for; any other text leaves it to the
/// system.
pub open spec fn read_choice(text: Seq<char>) -> LanguageChoice {
    if trimmed(text) == "en"@ {
        LanguageChoice::English
    } else if trimmed(text) == "zh-CN"@ {
        LanguageChoice::SimplifiedChinese
    } else {
        LanguageChoice::System
    }
}

/// Whether a locale name is one of Chinese: `zh`, alone or with a territory
/// behind a hyphen or an underscore, in any case.
pub open spec fn is_chinese(name: Seq<char>) -> bool {
    &&& name.len() >= 2
    &&& (name[0] == 'z' || name[0] == 'Z')
    &&& (name[1] == 'h' || name[1] == 'H')
    &&& name.len() == 2 || name[2] == '_' || name[2] == '-'
}

/// The language of a list of locale names: Chinese where one of them is.
pub open spec fn system_language(names: Seq<Seq<char>>) -> Language {
    if exists|i: int| 0 <= i < names.len() && is_chinese(#[trigger] names[i]) {
        Language::SimplifiedChinese
    } else {
        Language::English
    }
}

/// The language that a choice gives, with the locale names of the system.
pub open spec fn resolved(choice: LanguageChoice, names: Seq<Seq<char>>) -> Language {
    match choice {
        LanguageChoice::English => Language::English,
        LanguageChoice::SimplifiedChinese => Language::SimplifiedChinese,
        LanguageChoice::System => system_language(names),
    }
}

impl LanguageChoice {
    /// The choice with the given number.
    pub fn from_index(index: u32) -> (r: Option<Self>)
        ensures
            r == choice_at(index),
    {
        if index == 0 {
            Some(LanguageChoice::System)
        } else if index == 1 {
            Some(LanguageChoice::English)
        } else if index == 2 {
            Some(LanguageChoice::SimplifiedChinese)
        } else {
            None
        }
    }

    /// The number of a choice.
    pub fn index(self) -> (r: u32)
        ensures
            choice_at(r) == Some(self),
            r <= 2,
    {
        match self {
            LanguageChoice::System => 0,
            LanguageChoice::English => 1,
            LanguageChoice::SimplifiedChinese => 2,
        }
    }

    /// How the choice is stored.
    pub fn config_value(self) -> (r: &'static str)
        ensures
            r@ == stored_choice(self),
    {
        match self {
            LanguageChoice::System => "system",
            LanguageChoice::English => "en",
            LanguageChoice::SimplifiedChinese => "zh-CN",
        }
    }

    /// The language that the choice gives.
    pub fn resolve(self, names: &Vec<String>) -> (r: Language)
        ensures
            r == resolved(self, texts(names@)),
    {
        match self {
            LanguageChoice::English => Language::English,
            LanguageChoice::SimplifiedChinese => Language::SimplifiedChinese,
            LanguageChoice::System => resolve_system_language(names),
        }
    }
}

/// The choice that a stored text stands for; the system's where there is none.
pub fn load_choice(stored: Option<&str>) -> (r: LanguageChoice)
    ensures
        r == (match stored {
            Some(s) => read_choice(s@),
            None => LanguageChoice::System,
        }),
{
    match stored {
        None => LanguageChoice::System,
        Some(s) => {
            let value = trim(s);
            if same(value.as_str(), "en") {
                LanguageChoice::English
            } else if same(value.as_str(), "zh-CN") {
                LanguageChoice::SimplifiedChinese
            } else {
                LanguageChoice::System
            }
        },
    }
}

/// The language in use and the choice behind it. A new choice takes effect at
/// the next start.
#[derive(Clone, Copy, Debug, Default, PartialEq, Eq, Structural)]
pub struct Localization {
    pub language: Language,
    pub language_choice: LanguageChoice,
}

impl Localization {
    /// The localization of a session, from the stored choice and the locale
    /// names of the system.
    pub fn initialize(stored: Option<&str>, names: &Vec<String>) -> (r: Self)
        ensures
            r.language_choice == (match stored {
                Some(s) => read_choice(s@),
                None => LanguageChoice::System,
            }),
            r.language == resolved(r.language_choice, texts(names@)),
    {
        let language_choice = load_choice(stored);
        Localization { language: language_choice.resolve(names), language_choice }
    }

    /// Takes in a choice that was stored. The language in use stays.
    pub fn save_language_choice(&mut self, choice: LanguageChoice)
        ensures
            *final(self) == (Localization { language_choice: choice, ..*old(self) }),
    {
        self.language_choice = choice;
    }
}

/// The language of a list of locale names.
pub fn resolve_system_language(names: &Vec<String>) -> (r: Language)
    ensures
        r == system_language(texts(names@)),
{
    let mut i: usize = 0;
    while i < names.len()
        invariant
            i <= names@.len(),
            forall|k: int| 0 <= k < i ==> !is_chinese(#[trigger] texts(names@)[k]),
        decreases names@.len() - i,
    {
        assert(texts(names@)[i as int] == names@[i as int]@);
        let c = chars_of(names[i].as_str());
        if c.len() >= 2 && (c[0] == 'z' || c[0] == 'Z') && (c[1] == 'h' || c[1] == 'H') && (c.len()
            == 2 || c[2] == '_' || c[2] == '-') {
            assert(is_chinese(texts(names@)[i as int]));
            return Language::SimplifiedChinese;
        }
        i = i + 1;
    }
    Language::English
}

/// A static text as the model has it.
pub open spec fn static_view(r: Option<&'static str>) -> Option<Seq<char>> {
    match r {
        Some(s) => Some(s@),
        None => None,
    }
}

/// The Chinese for a text of the client. Part 1 of 7.
pub open spec fn catalog_1(text: Seq<char>) -> Option<Seq<char>> {
    if text == "Active"@ {
        Some("已启用"@)
    } else if text == "Active workload"@ {
        Some("活动工作负载"@)
    } else if text == "Add a rule below to pin a mode for a matching process."@ {
        Some("在下方添加规则，为匹配的进程固定运行模式。"@)
    } else if text == "Add rule"@ {
        Some("添加规则"@)
    } else if text == "Apply"@ || text == "Apps"@ {
        Some("应用"@)
    } else if text == "Apply privileged frequency limits?"@ {
        Some("应用特权频率限制？"@)
    } else if text == "Apply…"@ {
        Some("应用…"@)
    } else if text == "Application rules"@ {
        Some("应用规则"@)
    } else if text == "Broad game and compatibility-layer matches; detection alone never changes the active mode"@ {
        Some("广泛匹配游戏和兼容层；仅检测到进程不会改变当前模式"@)
    } else if text == "Cancel"@ {
        Some("取消"@)
    } else if text == "Class"@ {
        Some("类别"@)
    } else if text == "Clear"@ {
        Some("清除"@)
    } else if text == "Clear active workload"@ {
        Some("清除活动工作负载"@)
    } else if text == "Clear explicit workload"@ {
        Some("清除显式工作负载"@)
    } else if text == "Clear focused workload"@ {
        Some("清除焦点工作负载"@)
    } else if text == "Cluster frequency"@ {
        Some("集群频率"@)
    } else if text == "Configuration reload"@ {
        Some("重新加载配置"@)
    } else if text == "Connected"@ {
        Some("已连接"@)
    } else {
        None
    }
}

fn look_up_1(text: &str) -> (r: Option<&'static str>)
    ensures
        static_view(r) == catalog_1(text@),
{
    if same(text, "Active") {
        Some("已启用")
    } else if same(text, "Active workload") {
        Some("活动工作负载")
    } else if same(text, "Add a rule below to pin a mode for a matching process.") {
        Some("在下方添加规则，为匹配的进程固定运行模式。")
    } else if same(text, "Add rule") {
        Some("添加规则")
    } else if same(text, "Apply") || same(text, "Apps") {
        Some("应用")
    } else if same(text, "Apply privileged frequency limits?") {
        Some("应用特权频率限制？")
    } else if same(text, "Apply…") {
        Some("应用…")
    } else if same(text, "Application rules") {
        Some("应用规则")
    } else if same(text, "Broad game and compatibility-layer matches; detection alone never changes the active mode") {
        Some("广泛匹配游戏和兼容层；仅检测到进程不会改变当前模式")
    } else if same(text, "Cancel") {
        Some("取消")
    } else if same(text, "Class") {
        Some("类别")
    } else if same(text, "Clear") {
        Some("清除")
    } else if same(text, "Clear active workload") {
        Some("清除活动工作负载")
    } else if same(text, "Clear explicit workload") {
        Some("清除显式工作负载")
    } else if same(text, "Clear focused workload") {
        Some("清除焦点工作负载")
    } else if same(text, "Cluster frequency") {
        Some("集群频率")
    } else if same(text, "Configuration reload") {
        Some("重新加载配置")
    } else if same(text, "Connected") {
        Some("已连接")
    } else {
        None
    }
}

/// The Chinese for a text of the client. Part 2 of 7.
pub open spec fn catalog_2(text: Seq<char>) -> Option<Seq<char>> {
    if text == "Connecting…"@ {
        Some("正在连接…"@)
    } else if text == "Connection"@ {
        Some("连接"@)
    } else if text == "CPU utilization"@ {
        Some("CPU 使用率"@)
    } else if text == "Daemon configuration"@ {
        Some("守护进程配置"@)
    } else if text == "Dashboard"@ {
        Some("概览"@)
    } else if text == "Detected running workloads"@ {
        Some("检测到的运行中工作负载"@)
    } else if text == "Disabled by policy"@ {
        Some("已被策略禁用"@)
    } else if text == "Disconnected"@ {
        Some("已断开"@)
    } else if text == "Dominant scene"@ {
        Some("主导场景"@)
    } else if text == "Edit the config with administrator privileges, then reload it here."@ {
        Some("使用管理员权限编辑配置后，在此重新加载。"@)
    } else if text == "Effective profile"@ {
        Some("当前生效配置"@)
    } else if text == "Enable & Start"@ {
        Some("启用并启动"@)
    } else if text == "Enable rule"@ {
        Some("启用规则"@)
    } else if text == "Enabling…"@ {
        Some("正在启用…"@)
    } else if text == "English"@ {
        Some("英语"@)
    } else if text == "Enter a PID; the daemon resolves and verifies its start time and UID"@ {
        Some("输入 PID；守护进程会解析并验证其启动时间和 UID"@)
    } else if text == "Executable path (optional)"@ {
        Some("可执行文件路径（可选）"@)
    } else if text == "Follow system language"@ {
        Some("跟随系统语言"@)
    } else {
        None
    }
}

fn look_up_2(text: &str) -> (r: Option<&'static str>)
    ensures
        static_view(r) == catalog_2(text@),
{
    if same(text, "Connecting…") {
        Some("正在连接…")
    } else if same(text, "Connection") {
        Some("连接")
    } else if same(text, "CPU utilization") {
        Some("CPU 使用率")
    } else if same(text, "Daemon configuration") {
        Some("守护进程配置")
    } else if same(text, "Dashboard") {
        Some("概览")
    } else if same(text, "Detected running workloads") {
        Some("检测到的运行中工作负载")
    } else if same(text, "Disabled by policy") {
        Some("已被策略禁用")
    } else if same(text, "Disconnected") {
        Some("已断开")
    } else if same(text, "Dominant scene") {
        Some("主导场景")
    } else if same(text, "Edit the config with administrator privileges, then reload it here.") {
        Some("使用管理员权限编辑配置后，在此重新加载。")
    } else if same(text, "Effective profile") {
        Some("当前生效配置")
    } else if same(text, "Enable & Start") {
        Some("启用并启动")
    } else if same(text, "Enable rule") {
        Some("启用规则")
    } else if same(text, "Enabling…") {
        Some("正在启用…")
    } else if same(text, "English") {
        Some("英语")
    } else if same(text, "Enter a PID; the daemon resolves and verifies its start time and UID") {
        Some("输入 PID；守护进程会解析并验证其启动时间和 UID")
    } else if same(text, "Executable path (optional)") {
        Some("可执行文件路径（可选）")
    } else if same(text, "Follow system language") {
        Some("跟随系统语言")
    } else {
        None
    }
}

/// The Chinese for a text of the client. Part 3 of 7.
pub open spec fn catalog_3(text: Seq<char>) -> Option<Seq<char>> {
    if text == "Frequency"@ {
        Some("频率"@)
    } else if text == "Health"@ {
        Some("健康状态"@)
    } else if text == "Health issues"@ {
        Some("健康状态详情"@)
    } else if text == "Detailed daemon findings, including informational reports"@ {
        Some("守护进程报告的完整详情，包括提示信息"@)
    } else if text == "Incompatible API"@ {
        Some("API 不兼容"@)
    } else if text == "Invalid request"@ {
        Some("无效请求"@)
    } else if text == "Language"@ {
        Some("语言"@)
    } else if text == "Language changes take effect after restarting the application"@ {
        Some("语言更改会在重新打开应用后生效"@)
    } else if text == "Language saved. Restart Uperf Linux to apply it."@ {
        Some("语言设置已保存，重新打开 Uperf Linux 后生效。"@)
    } else if text == "Lifecycle"@ {
        Some("生命周期"@)
    } else if text == "Launch a game, Wine/Proton application, emulator, or Steam process."@ {
        Some("请启动游戏、Wine/Proton 应用、模拟器或 Steam 进程。"@)
    } else if text == "Logs"@ {
        Some("日志"@)
    } else if text == "Manual bounds are transactional, read back by the daemon, and constrained by thermal safety"@ {
        Some("手动频率范围以事务方式应用并由守护进程回读，同时受温控安全限制"@)
    } else if text == "Manual frequency override"@ {
        Some("手动频率覆盖"@)
    } else if text == "Match by executable path, process-name regex, or both"@ {
        Some("按可执行文件路径、进程名正则表达式或两者共同匹配"@)
    } else if text == "Maximum frequency"@ {
        Some("最高频率"@)
    } else if text == "Minimum frequency"@ {
        Some("最低频率"@)
    } else if text == "Mode"@ {
        Some("模式"@)
    } else {
        None
    }
}

fn look_up_3(text: &str) -> (r: Option<&'static str>)
    ensures
        static_view(r) == catalog_3(text@),
{
    if same(text, "Frequency") {
        Some("频率")
    } else if same(text, "Health") {
        Some("健康状态")
    } else if same(text, "Health issues") {
        Some("健康状态详情")
    } else if same(text, "Detailed daemon findings, including informational reports") {
        Some("守护进程报告的完整详情，包括提示信息")
    } else if same(text, "Incompatible API") {
        Some("API 不兼容")
    } else if same(text, "Invalid request") {
        Some("无效请求")
    } else if same(text, "Language") {
        Some("语言")
    } else if same(text, "Language changes take effect after restarting the application") {
        Some("语言更改会在重新打开应用后生效")
    } else if same(text, "Language saved. Restart Uperf Linux to apply it.") {
        Some("语言设置已保存，重新打开 Uperf Linux 后生效。")
    } else if same(text, "Lifecycle") {
        Some("生命周期")
    } else if same(text, "Launch a game, Wine/Proton application, emulator, or Steam process.") {
        Some("请启动游戏、Wine/Proton 应用、模拟器或 Steam 进程。")
    } else if same(text, "Logs") {
        Some("日志")
    } else if same(text, "Manual bounds are transactional, read back by the daemon, and constrained by thermal safety") {
        Some("手动频率范围以事务方式应用并由守护进程回读，同时受温控安全限制")
    } else if same(text, "Manual frequency override") {
        Some("手动频率覆盖")
    } else if same(text, "Match by executable path, process-name regex, or both") {
        Some("按可执行文件路径、进程名正则表达式或两者共同匹配")
    } else if same(text, "Maximum frequency") {
        Some("最高频率")
    } else if same(text, "Minimum frequency") {
        Some("最低频率")
    } else if same(text, "Mode") {
        Some("模式")
    } else {
        None
    }
}

/// The Chinese for a text of the client. Part 4 of 7.
pub open spec fn catalog_4(text: Seq<char>) -> Option<Seq<char>> {
    if text == "Modes are advertised by the running daemon"@ {
        Some("模式由正在运行的守护进程提供"@)
    } else if text == "No active workload"@ {
        Some("没有活动工作负载"@)
    } else if text == "No applied rule"@ {
        Some("没有已应用规则"@)
    } else if text == "No application rules"@ {
        Some("没有应用规则"@)
    } else if text == "No dedicated unit selected"@ {
        Some("未选择专用 unit"@)
    } else if text == "No fresh state"@ {
        Some("没有最新状态"@)
    } else if text == "No matching processes"@ {
        Some("没有匹配的进程"@)
    } else if text == "No overridable targets"@ {
        Some("没有可覆盖的目标"@)
    } else if text == "None"@ {
        Some("无"@)
    } else if text == "Not authorized"@ {
        Some("未授权"@)
    } else if text == "Observed state reported by org.uperflinux.Daemon1"@ {
        Some("org.uperflinux.Daemon1 报告的实际状态"@)
    } else if text == "Pending or no matching scheduler rule"@ {
        Some("等待应用或没有匹配的调度规则"@)
    } else if text == "Per-CPU load reported by daemon telemetry"@ {
        Some("守护进程遥测报告的逐 CPU 负载"@)
    } else if text == "Persistent global rules that pin a mode for matching processes"@ {
        Some("为匹配进程固定运行模式的持久全局规则"@)
    } else if text == "Power mode"@ {
        Some("电源模式"@)
    } else if text == "Press Refresh to load the latest uperf-linux.service journal."@ {
        Some("点击“刷新”加载最新的 uperf-linux.service 日志。"@)
    } else if text == "Process-name regex (optional)"@ {
        Some("进程名正则表达式（可选）"@)
    } else if text == "Refresh"@ {
        Some("刷新"@)
    } else {
        None
    }
}

fn look_up_4(text: &str) -> (r: Option<&'static str>)
    ensures
        static_view(r) == catalog_4(text@),
{
    if same(text, "Modes are advertised by the running daemon") {
        Some("模式由正在运行的守护进程提供")
    } else if same(text, "No active workload") {
        Some("没有活动工作负载")
    } else if same(text, "No applied rule") {
        Some("没有已应用规则")
    } else if same(text, "No application rules") {
        Some("没有应用规则")
    } else if same(text, "No dedicated unit selected") {
        Some("未选择专用 unit")
    } else if same(text, "No fresh state") {
        Some("没有最新状态")
    } else if same(text, "No matching processes") {
        Some("没有匹配的进程")
    } else if same(text, "No overridable targets") {
        Some("没有可覆盖的目标")
    } else if same(text, "None") {
        Some("无")
    } else if same(text, "Not authorized") {
        Some("未授权")
    } else if same(text, "Observed state reported by org.uperflinux.Daemon1") {
        Some("org.uperflinux.Daemon1 报告的实际状态")
    } else if same(text, "Pending or no matching scheduler rule") {
        Some("等待应用或没有匹配的调度规则")
    } else if same(text, "Per-CPU load reported by daemon telemetry") {
        Some("守护进程遥测报告的逐 CPU 负载")
    } else if same(text, "Persistent global rules that pin a mode for matching processes") {
        Some("为匹配进程固定运行模式的持久全局规则")
    } else if same(text, "Power mode") {
        Some("电源模式")
    } else if same(text, "Press Refresh to load the latest uperf-linux.service journal.") {
        Some("点击“刷新”加载最新的 uperf-linux.service 日志。")
    } else if same(text, "Process-name regex (optional)") {
        Some("进程名正则表达式（可选）")
    } else if same(text, "Refresh") {
        Some("刷新")
    } else {
        None
    }
}

/// The Chinese for a text of the client. Part 5 of 7.
pub open spec fn catalog_5(text: Seq<char>) -> Option<Seq<char>> {
    if text == "Release all"@ {
        Some("全部释放"@)
    } else if text == "Reload"@ {
        Some("重新加载"@)
    } else if text == "Remove rule"@ {
        Some("删除规则"@)
    } else if text == "Request rejected"@ {
        Some("请求被拒绝"@)
    } else if text == "Rule"@ {
        Some("规则"@)
    } else if text == "Safety state is authoritative; manual settings cannot bypass it"@ {
        Some("安全状态具有最高优先级，手动设置无法绕过"@)
    } else if text == "Selection"@ {
        Some("当前选择"@)
    } else if text == "Service activation was cancelled or denied"@ {
        Some("服务启用已取消或被拒绝"@)
    } else if text == "Service journal"@ {
        Some("服务日志"@)
    } else if text == "Service started and enabled for boot"@ {
        Some("服务已启动，并设置为开机自动启动"@)
    } else if text == "Set active workload"@ {
        Some("设置活动工作负载"@)
    } else if text == "Settings"@ {
        Some("设置"@)
    } else if text == "Simplified Chinese"@ {
        Some("简体中文"@)
    } else if text == "Start at boot and connect the GUI to the privileged daemon"@ {
        Some("设置开机自动启动，并将 GUI 连接到特权守护进程"@)
    } else if text == "State unavailable · not managed"@ {
        Some("状态不可用 · 未托管"@)
    } else if text == "Status"@ {
        Some("状态"@)
    } else if text == "Source"@ {
        Some("来源"@)
    } else if text == "System service"@ {
        Some("系统服务"@)
    } else {
        None
    }
}

fn look_up_5(text: &str) -> (r: Option<&'static str>)
    ensures
        static_view(r) == catalog_5(text@),
{
    if same(text, "Release all") {
        Some("全部释放")
    } else if same(text, "Reload") {
        Some("重新加载")
    } else if same(text, "Remove rule") {
        Some("删除规则")
    } else if same(text, "Request rejected") {
        Some("请求被拒绝")
    } else if same(text, "Rule") {
        Some("规则")
    } else if same(text, "Safety state is authoritative; manual settings cannot bypass it") {
        Some("安全状态具有最高优先级，手动设置无法绕过")
    } else if same(text, "Selection") {
        Some("当前选择")
    } else if same(text, "Service activation was cancelled or denied") {
        Some("服务启用已取消或被拒绝")
    } else if same(text, "Service journal") {
        Some("服务日志")
    } else if same(text, "Service started and enabled for boot") {
        Some("服务已启动，并设置为开机自动启动")
    } else if same(text, "Set active workload") {
        Some("设置活动工作负载")
    } else if same(text, "Settings") {
        Some("设置")
    } else if same(text, "Simplified Chinese") {
        Some("简体中文")
    } else if same(text, "Start at boot and connect the GUI to the privileged daemon") {
        Some("设置开机自动启动，并将 GUI 连接到特权守护进程")
    } else if same(text, "State unavailable · not managed") {
        Some("状态不可用 · 未托管")
    } else if same(text, "Status") {
        Some("状态")
    } else if same(text, "Source") {
        Some("来源")
    } else if same(text, "System service") {
        Some("系统服务")
    } else {
        None
    }
}

/// The Chinese for a text of the client. Part 6 of 7.
pub open spec fn catalog_6(text: Seq<char>) -> Option<Seq<char>> {
    if text == "Systemd cgroup"@ {
        Some("Systemd cgroup"@)
    } else if text == "Task scheduler"@ {
        Some("任务调度"@)
    } else if text == "Temperature"@ {
        Some("温度"@)
    } else if text == "Thermal and hardware limits remain authoritative."@ {
        Some("温控与硬件限制仍具有最高优先级。"@)
    } else if text == "Thermal safety"@ {
        Some("温控安全"@)
    } else if text == "Unable to read journal"@ {
        Some("无法读取日志"@)
    } else if text == "Unable to request service activation"@ {
        Some("无法请求启用服务"@)
    } else if text == "Unable to save the language preference"@ {
        Some("无法保存语言设置"@)
    } else if text == "Unable to start journalctl"@ {
        Some("无法启动 journalctl"@)
    } else if text == "Unavailable"@ {
        Some("不可用"@)
    } else if text == "Use"@ {
        Some("使用"@)
    } else if text == "Workload PID"@ {
        Some("工作负载 PID"@)
    } else if text == "any process"@ {
        Some("任意进程"@)
    } else if text == "applied"@ {
        Some("已应用"@)
    } else if text == "daemon disconnected before the command was sent"@ {
        Some("命令发送前守护进程已断开"@)
    } else if text == "explicit active workload"@ {
        Some("显式活动工作负载"@)
    } else if text == "matched"@ {
        Some("匹配"@)
    } else if text == "ms"@ {
        Some("毫秒"@)
    } else {
        None
    }
}

fn look_up_6(text: &str) -> (r: Option<&'static str>)
    ensures
        static_view(r) == catalog_6(text@),
{
    if same(text, "Systemd cgroup") {
        Some("Systemd cgroup")
    } else if same(text, "Task scheduler") {
        Some("任务调度")
    } else if same(text, "Temperature") {
        Some("温度")
    } else if same(text, "Thermal and hardware limits remain authoritative.") {
        Some("温控与硬件限制仍具有最高优先级。")
    } else if same(text, "Thermal safety") {
        Some("温控安全")
    } else if same(text, "Unable to read journal") {
        Some("无法读取日志")
    } else if same(text, "Unable to request service activation") {
        Some("无法请求启用服务")
    } else if same(text, "Unable to save the language preference") {
        Some("无法保存语言设置")
    } else if same(text, "Unable to start journalctl") {
        Some("无法启动 journalctl")
    } else if same(text, "Unavailable") {
        Some("不可用")
    } else if same(text, "Use") {
        Some("使用")
    } else if same(text, "Workload PID") {
        Some("工作负载 PID")
    } else if same(text, "any process") {
        Some("任意进程")
    } else if same(text, "applied") {
        Some("已应用")
    } else if same(text, "daemon disconnected before the command was sent") {
        Some("命令发送前守护进程已断开")
    } else if same(text, "explicit active workload") {
        Some("显式活动工作负载")
    } else if same(text, "matched") {
        Some("匹配")
    } else if same(text, "ms") {
        Some("毫秒")
    } else {
        None
    }
}

/// The Chinese for a text of the client. Part 7 of 7.
pub open spec fn catalog_7(text: Seq<char>) -> Option<Seq<char>> {
    if text == "no dedicated unit"@ {
        Some("没有专用 unit"@)
    } else if text == "not applied"@ {
        Some("未应用"@)
    } else if text == "not managed"@ {
        Some("未托管"@)
    } else if text == "observed"@ {
        Some("已观测"@)
    } else if text == "override"@ {
        Some("覆盖"@)
    } else if text == "priority"@ {
        Some("优先级"@)
    } else if text == "retrying in"@ {
        Some("将在以下时间后重试"@)
    } else if text == "s"@ {
        Some("秒"@)
    } else if text == "safety cap active"@ {
        Some("安全上限已生效"@)
    } else if text == "sensor data stale"@ {
        Some("传感器数据已过期"@)
    } else if text == "stale"@ {
        Some("已过期"@)
    } else if text == "tasks applied"@ {
        Some("个任务已应用"@)
    } else if text == "(journal is empty)"@ {
        Some("（日志为空）"@)
    } else if text == "Sensors healthy"@ {
        Some("传感器正常"@)
    } else {
        None
    }
}

fn look_up_7(text: &str) -> (r: Option<&'static str>)
    ensures
        static_view(r) == catalog_7(text@),
{
    if same(text, "no dedicated unit") {
        Some("没有专用 unit")
    } else if same(text, "not applied") {
        Some("未应用")
    } else if same(text, "not managed") {
        Some("未托管")
    } else if same(text, "observed") {
        Some("已观测")
    } else if same(text, "override") {
        Some("覆盖")
    } else if same(text, "priority") {
        Some("优先级")
    } else if same(text, "retrying in") {
        Some("将在以下时间后重试")
    } else if same(text, "s") {
        Some("秒")
    } else if same(text, "safety cap active") {
        Some("安全上限已生效")
    } else if same(text, "sensor data stale") {
        Some("传感器数据已过期")
    } else if same(text, "stale") {
        Some("已过期")
    } else if same(text, "tasks applied") {
        Some("个任务已应用")
    } else if same(text, "(journal is empty)") {
        Some("（日志为空）")
    } else if same(text, "Sensors healthy") {
        Some("传感器正常")
    } else {
        None
    }
}

/// The Chinese for a text of the client.
pub open spec fn catalog(text: Seq<char>) -> Option<Seq<char>> {
    if let Some(s) = catalog_1(text) {
        Some(s)
    } else if let Some(s) = catalog_2(text) {
        Some(s)
    } else if let Some(s) = catalog_3(text) {
        Some(s)
    } else if let Some(s) = catalog_4(text) {
        Some(s)
    } else if let Some(s) = catalog_5(text) {
        Some(s)
    } else if let Some(s) = catalog_6(text) {
        Some(s)
    } else {
        catalog_7(text)
    }
}

/// The Chinese for a text of the client.
fn look_up(text: &str) -> (r: Option<&'static str>)
    ensures
        static_view(r) == catalog(text@),
{
    if let Some(s) = look_up_1(text) {
        Some(s)
    } else if let Some(s) = look_up_2(text) {
        Some(s)
    } else if let Some(s) = look_up_3(text) {
        Some(s)
    } else if let Some(s) = look_up_4(text) {
        Some(s)
    } else if let Some(s) = look_up_5(text) {
        Some(s)
    } else if let Some(s) = look_up_6(text) {
        Some(s)
    } else {
        look_up_7(text)
    }
}

/// A text of the client in a language. A text that the catalog lacks stays
/// English.
pub open spec fn translation(language: Language, english: Seq<char>) -> Seq<char> {
    match (language, catalog(english)) {
        (Language::SimplifiedChinese, Some(s)) => s,
        _ => english,
    }
}

/// A text of the client in a language.
pub fn translate(language: Language, english: &'static str) -> (r: &'static str)
    ensures
        r@ == translation(language, english@),
{
    match language {
        Language::English => english,
        Language::SimplifiedChinese => match look_up(english) {
            Some(s) => s,
            None => english,
        },
    }
}

/// A text of the client in the language in use.
pub fn tr(localization: &Localization, english: &'static str) -> (r: &'static str)
    ensures
        r@ == translation(localization.language, english@),
{
    translate(localization.language, english)
}

/// The Chinese for a message that the client makes.
pub open spec fn message_catalog(text: Seq<char>) -> Option<Seq<char>> {
    if text == "PID must be a positive integer"@ {
        Some("PID 必须是正整数"@)
    } else if text == "PID must be non-zero"@ {
        Some("PID 不能为零"@)
    } else if text == "Provide an executable path or a process-name regex"@ {
        Some("请提供可执行文件路径或进程名正则表达式"@)
    } else if text == "Select a maximum frequency"@ {
        Some("请选择最高频率"@)
    } else if text == "Select a minimum frequency"@ {
        Some("请选择最低频率"@)
    } else if text == "Select a mode for the rule"@ {
        Some("请为规则选择模式"@)
    } else if text == "minimum frequency exceeds maximum frequency"@ {
        Some("最低频率高于最高频率"@)
    } else if text == "requested frequencies exceed the advertised hardware bounds"@ {
        Some("请求的频率超出硬件公布范围"@)
    } else if text == "requested frequency is not an advertised operating point"@ {
        Some("请求的频率不是硬件公布的工作点"@)
    } else {
        None
    }
}

/// The Chinese for a message that the client makes.
fn look_up_message(text: &str) -> (r: Option<&'static str>)
    ensures
        static_view(r) == message_catalog(text@),
{
    if same(text, "PID must be a positive integer") {
        Some("PID 必须是正整数")
    } else if same(text, "PID must be non-zero") {
        Some("PID 不能为零")
    } else if same(text, "Provide an executable path or a process-name regex") {
        Some("请提供可执行文件路径或进程名正则表达式")
    } else if same(text, "Select a maximum frequency") {
        Some("请选择最高频率")
    } else if same(text, "Select a minimum frequency") {
        Some("请选择最低频率")
    } else if same(text, "Select a mode for the rule") {
        Some("请为规则选择模式")
    } else if same(text, "minimum frequency exceeds maximum frequency") {
        Some("最低频率高于最高频率")
    } else if same(text, "requested frequencies exceed the advertised hardware bounds") {
        Some("请求的频率超出硬件公布范围")
    } else if same(text, "requested frequency is not an advertised operating point") {
        Some("请求的频率不是硬件公布的工作点")
    } else {
        None
    }
}

/// The Chinese for the label of a mode.
pub open spec fn label_catalog(text: Seq<char>) -> Option<Seq<char>> {
    if text == "auto"@ {
        Some("自动"@)
    } else if text == "powersave"@ {
        Some("省电"@)
    } else if text == "balance"@ || text == "balanced"@ {
        Some("均衡"@)
    } else if text == "performance"@ {
        Some("性能"@)
    } else {
        None
    }
}

/// The Chinese for the label of a mode.
fn look_up_label(text: &str) -> (r: Option<&'static str>)
    ensures
        static_view(r) == label_catalog(text@),
{
    if same(text, "auto") {
        Some("自动")
    } else if same(text, "powersave") {
        Some("省电")
    } else if same(text, "balance") || same(text, "balanced") {
        Some("均衡")
    } else if same(text, "performance") {
        Some("性能")
    } else {
        None
    }
}

/// The Chinese for the description of a mode.
pub open spec fn description_catalog(text: Seq<char>) -> Option<Seq<char>> {
    if text == "auto"@ {
        Some("使用活动工作负载规则，否则使用均衡默认模式"@)
    } else if text == "powersave"@ {
        Some("优先使用高能效工作点"@)
    } else if text == "balance"@ || text == "balanced"@ {
        Some("兼顾响应速度和能效"@)
    } else if text == "performance"@ {
        Some("在安全上限内优先保证响应速度"@)
    } else {
        None
    }
}

/// The Chinese for the description of a mode.
fn look_up_description(text: &str) -> (r: Option<&'static str>)
    ensures
        static_view(r) == description_catalog(text@),
{
    if same(text, "auto") {
        Some("使用活动工作负载规则，否则使用均衡默认模式")
    } else if same(text, "powersave") {
        Some("优先使用高能效工作点")
    } else if same(text, "balance") || same(text, "balanced") {
        Some("兼顾响应速度和能效")
    } else if same(text, "performance") {
        Some("在安全上限内优先保证响应速度")
    } else {
        None
    }
}

/// The Chinese for a value of the protocol. Part 1 of 2.
pub open spec fn protocol_catalog_1(text: Seq<char>) -> Option<Seq<char>> {
    if text == "active"@ {
        Some("活动"@)
    } else if text == "auto"@ {
        Some("自动"@)
    } else if text == "balance"@ || text == "balanced"@ {
        Some("均衡"@)
    } else if text == "boost"@ || text == "Boost"@ {
        Some("加速"@)
    } else if text == "connected"@ {
        Some("已连接"@)
    } else if text == "critical"@ {
        Some("严重"@)
    } else if text == "degraded"@ {
        Some("降级"@)
    } else if text == "error"@ {
        Some("错误"@)
    } else if text == "explicit"@ {
        Some("显式指定"@)
    } else if text == "focus"@ {
        Some("窗口焦点"@)
    } else if text == "gesture"@ || text == "Gesture"@ {
        Some("手势"@)
    } else if text == "healthy"@ {
        Some("健康"@)
    } else if text == "info"@ {
        Some("提示"@)
    } else if text == "idle"@ || text == "Idle"@ {
        Some("空闲"@)
    } else if text == "normal"@ {
        Some("正常"@)
    } else if text == "performance"@ {
        Some("性能"@)
    } else if text == "powersave"@ {
        Some("省电"@)
    } else if text == "running"@ {
        Some("运行中"@)
    } else {
        None
    }
}

fn look_up_protocol_1(text: &str) -> (r: Option<&'static str>)
    ensures
        static_view(r) == protocol_catalog_1(text@),
{
    if same(text, "active") {
        Some("活动")
    } else if same(text, "auto") {
        Some("自动")
    } else if same(text, "balance") || same(text, "balanced") {
        Some("均衡")
    } else if same(text, "boost") || same(text, "Boost") {
        Some("加速")
    } else if same(text, "connected") {
        Some("已连接")
    } else if same(text, "critical") {
        Some("严重")
    } else if same(text, "degraded") {
        Some("降级")
    } else if same(text, "error") {
        Some("错误")
    } else if same(text, "explicit") {
        Some("显式指定")
    } else if same(text, "focus") {
        Some("窗口焦点")
    } else if same(text, "gesture") || same(text, "Gesture") {
        Some("手势")
    } else if same(text, "healthy") {
        Some("健康")
    } else if same(text, "info") {
        Some("提示")
    } else if same(text, "idle") || same(text, "Idle") {
        Some("空闲")
    } else if same(text, "normal") {
        Some("正常")
    } else if same(text, "performance") {
        Some("性能")
    } else if same(text, "powersave") {
        Some("省电")
    } else if same(text, "running") {
        Some("运行中")
    } else {
        None
    }
}

/// The Chinese for a value of the protocol. Part 2 of 2.
pub open spec fn protocol_catalog_2(text: Seq<char>) -> Option<Seq<char>> {
    if text == "stale"@ {
        Some("已过期"@)
    } else if text == "switch"@ || text == "Switch"@ {
        Some("切换"@)
    } else if text == "thermal-degraded"@ {
        Some("温控降级"@)
    } else if text == "throttled"@ {
        Some("已限频"@)
    } else if text == "touch"@ || text == "Touch"@ {
        Some("触摸"@)
    } else if text == "trigger"@ || text == "Trigger"@ {
        Some("触发"@)
    } else if text == "unavailable"@ {
        Some("不可用"@)
    } else if text == "wake"@ || text == "Wake"@ {
        Some("唤醒"@)
    } else if text == "warning"@ {
        Some("警告"@)
    } else if text == "all mandatory components are healthy"@ {
        Some("所有必要组件均正常"@)
    } else if text == "one or more mandatory components failed"@ {
        Some("一个或多个必要组件发生故障"@)
    } else if text == "running with one or more safety or capability restrictions"@ {
        Some("正在受一个或多个安全或功能限制运行"@)
    } else {
        None
    }
}

fn look_up_protocol_2(text: &str) -> (r: Option<&'static str>)
    ensures
        static_view(r) == protocol_catalog_2(text@),
{
    if same(text, "stale") {
        Some("已过期")
    } else if same(text, "switch") || same(text, "Switch") {
        Some("切换")
    } else if same(text, "thermal-degraded") {
        Some("温控降级")
    } else if same(text, "throttled") {
        Some("已限频")
    } else if same(text, "touch") || same(text, "Touch") {
        Some("触摸")
    } else if same(text, "trigger") || same(text, "Trigger") {
        Some("触发")
    } else if same(text, "unavailable") {
        Some("不可用")
    } else if same(text, "wake") || same(text, "Wake") {
        Some("唤醒")
    } else if same(text, "warning") {
        Some("警告")
    } else if same(text, "all mandatory components are healthy") {
        Some("所有必要组件均正常")
    } else if same(text, "one or more mandatory components failed") {
        Some("一个或多个必要组件发生故障")
    } else if same(text, "running with one or more safety or capability restrictions") {
        Some("正在受一个或多个安全或功能限制运行")
    } else {
        None
    }
}

/// The Chinese for a value of the protocol.
pub open spec fn protocol_catalog(text: Seq<char>) -> Option<Seq<char>> {
    if let Some(s) = protocol_catalog_1(text) {
        Some(s)
    } else {
        protocol_catalog_2(text)
    }
}

/// The Chinese for a value of the protocol.
fn look_up_protocol(text: &str) -> (r: Option<&'static str>)
    ensures
        static_view(r) == protocol_catalog(text@),
{
    if let Some(s) = look_up_protocol_1(text) {
        Some(s)
    } else {
        look_up_protocol_2(text)
    }
}

/// A message in a language; unknown messages stay as they are.
pub open spec fn known_message(language: Language, value: Seq<char>) -> Seq<char> {
    match (language, message_catalog(value)) {
        (Language::SimplifiedChinese, Some(s)) => s,
        _ => value,
    }
}

/// A message in a language; unknown messages stay as they are.
pub fn translate_known(language: Language, value: &str) -> (out: String)
    ensures
        out@ == known_message(language, value@),
{
    match language {
        Language::English => value.to_owned(),
        Language::SimplifiedChinese => match look_up_message(value) {
            Some(s) => s.to_owned(),
            None => value.to_owned(),
        },
    }
}

/// A value of the protocol in a language; unknown values stay as they are.
pub open spec fn protocol_value(language: Language, value: Seq<char>) -> Seq<char> {
    match (language, protocol_catalog(value)) {
        (Language::SimplifiedChinese, Some(s)) => s,
        _ => value,
    }
}

/// A value of the protocol in a language; unknown values stay as they are.
pub fn localized_protocol_value(language: Language, value: &str) -> (out: String)
    ensures
        out@ == protocol_value(language, value@),
{
    match language {
        Language::English => value.to_owned(),
        Language::SimplifiedChinese => match look_up_protocol(value) {
            Some(s) => s.to_owned(),
            None => value.to_owned(),
        },
    }
}

/// The label of a mode in a language; the daemon's own where there is none.
pub open spec fn mode_label(language: Language, id: Seq<char>, fallback: Seq<char>) -> Seq<char> {
    match (language, label_catalog(id)) {
        (Language::SimplifiedChinese, Some(s)) => s,
        _ => fallback,
    }
}

/// The label of a mode in a language; the daemon's own where there is none.
pub fn localized_mode_label(language: Language, id: &str, fallback: &str) -> (out: String)
    ensures
        out@ == mode_label(language, id@, fallback@),
{
    match language {
        Language::English => fallback.to_owned(),
        Language::SimplifiedChinese => match look_up_label(id) {
            Some(s) => s.to_owned(),
            None => fallback.to_owned(),
        },
    }
}

/// The description of a mode in a language; the daemon's own where there is none.
pub open spec fn mode_description(language: Language, id: Seq<char>, fallback: Seq<char>) -> Seq<char> {
    match (language, description_catalog(id)) {
        (Language::SimplifiedChinese, Some(s)) => s,
        _ => fallback,
    }
}

/// The description of a mode in a language; the daemon's own where there is none.
pub fn localized_mode_description(language: Language, id: &str, fallback: &str) -> (out: String)
    ensures
        out@ == mode_description(language, id@, fallback@),
{
    match language {
        Language::English => fallback.to_owned(),
        Language::SimplifiedChinese => match look_up_description(id) {
            Some(s) => s.to_owned(),
            None => fallback.to_owned(),
        },
    }
}

/// The English client shows every text as it was written, and a text that a
/// catalog lacks is shown as it was written in every language.
pub proof fn english_is_the_fallback(language: Language, text: Seq<char>, fallback: Seq<char>)
    ensures
        language == Language::English || catalog(text) is None ==> translation(language, text)
            == text,
        language == Language::English || message_catalog(text) is None ==> known_message(
            language,
            text,
        ) == text,
        language == Language::English || protocol_catalog(text) is None ==> protocol_value(
            language,
            text,
        ) == text,
        language == Language::English || label_catalog(text) is None ==> mode_label(
            language,
            text,
            fallback,
        ) == fallback,
        language == Language::English || description_catalog(text) is None ==> mode_description(
            language,
            text,
            fallback,
        ) == fallback,
{
}

/// Whether a text begins or ends with a character of the Chinese script.
pub open spec fn in_chinese(text: Seq<char>) -> bool {
    text.len() > 0 && (text[0] as u32 >= 0x2e80 || text.last() as u32 >= 0x2e80)
}

proof fn catalog_1_is_left(text: Seq<char>)
    ensures
        catalog_1(text) is Some ==> !in_chinese(text) && (in_chinese(catalog_1(text)->0)
            || catalog_1(text)->0 == text),
{
    if text == "Active"@ {
        reveal_strlit("Active");
        reveal_strlit("已启用");
    } else if text == "Active workload"@ {
        reveal_strlit("Active workload");
        reveal_strlit("活动工作负载");
    } else if text == "Add a rule below to pin a mode for a matching process."@ {
        reveal_strlit("Add a rule below to pin a mode for a matching process.");
        reveal_strlit("在下方添加规则，为匹配的进程固定运行模式。");
    } else if text == "Add rule"@ {
        reveal_strlit("Add rule");
        reveal_strlit("添加规则");
    } else if text == "Apply"@ {
        reveal_strlit("Apply");
        reveal_strlit("应用");
    } else if text == "Apps"@ {
        reveal_strlit("Apps");
        reveal_strlit("应用");
    } else if text == "Apply privileged frequency limits?"@ {
        reveal_strlit("Apply privileged frequency limits?");
        reveal_strlit("应用特权频率限制？");
    } else if text == "Apply…"@ {
        reveal_strlit("Apply…");
        reveal_strlit("应用…");
    } else if text == "Application rules"@ {
        reveal_strlit("Application rules");
        reveal_strlit("应用规则");
    } else if text == "Broad game and compatibility-layer matches; detection alone never changes the active mode"@ {
        reveal_strlit("Broad game and compatibility-layer matches; detection alone never changes the active mode");
        reveal_strlit("广泛匹配游戏和兼容层；仅检测到进程不会改变当前模式");
    } else if text == "Cancel"@ {
        reveal_strlit("Cancel");
        reveal_strlit("取消");
    } else if text == "Class"@ {
        reveal_strlit("Class");
        reveal_strlit("类别");
    } else if text == "Clear"@ {
        reveal_strlit("Clear");
        reveal_strlit("清除");
    } else if text == "Clear active workload"@ {
        reveal_strlit("Clear active workload");
        reveal_strlit("清除活动工作负载");
    } else if text == "Clear explicit workload"@ {
        reveal_strlit("Clear explicit workload");
        reveal_strlit("清除显式工作负载");
    } else if text == "Clear focused workload"@ {
        reveal_strlit("Clear focused workload");
        reveal_strlit("清除焦点工作负载");
    } else if text == "Cluster frequency"@ {
        reveal_strlit("Cluster frequency");
        reveal_strlit("集群频率");
    } else if text == "Configuration reload"@ {
        reveal_strlit("Configuration reload");
        reveal_strlit("重新加载配置");
    } else if text == "Connected"@ {
        reveal_strlit("Connected");
        reveal_strlit("已连接");
    }
}

proof fn catalog_2_is_left(text: Seq<char>)
    ensures
        catalog_2(text) is Some ==> !in_chinese(text) && (in_chinese(catalog_2(text)->0)
            || catalog_2(text)->0 == text),
{
    if text == "Connecting…"@ {
        reveal_strlit("Connecting…");
        reveal_strlit("正在连接…");
    } else if text == "Connection"@ {
        reveal_strlit("Connection");
        reveal_strlit("连接");
    } else if text == "CPU utilization"@ {
        reveal_strlit("CPU utilization");
        reveal_strlit("CPU 使用率");
    } else if text == "Daemon configuration"@ {
        reveal_strlit("Daemon configuration");
        reveal_strlit("守护进程配置");
    } else if text == "Dashboard"@ {
        reveal_strlit("Dashboard");
        reveal_strlit("概览");
    } else if text == "Detected running workloads"@ {
        reveal_strlit("Detected running workloads");
        reveal_strlit("检测到的运行中工作负载");
    } else if text == "Disabled by policy"@ {
        reveal_strlit("Disabled by policy");
        reveal_strlit("已被策略禁用");
    } else if text == "Disconnected"@ {
        reveal_strlit("Disconnected");
        reveal_strlit("已断开");
    } else if text == "Dominant scene"@ {
        reveal_strlit("Dominant scene");
        reveal_strlit("主导场景");
    } else if text == "Edit the config with administrator privileges, then reload it here."@ {
        reveal_strlit("Edit the config with administrator privileges, then reload it here.");
        reveal_strlit("使用管理员权限编辑配置后，在此重新加载。");
    } else if text == "Effective profile"@ {
        reveal_strlit("Effective profile");
        reveal_strlit("当前生效配置");
    } else if text == "Enable & Start"@ {
        reveal_strlit("Enable & Start");
        reveal_strlit("启用并启动");
    } else if text == "Enable rule"@ {
        reveal_strlit("Enable rule");
        reveal_strlit("启用规则");
    } else if text == "Enabling…"@ {
        reveal_strlit("Enabling…");
        reveal_strlit("正在启用…");
    } else if text == "English"@ {
        reveal_strlit("English");
        reveal_strlit("英语");
    } else if text == "Enter a PID; the daemon resolves and verifies its start time and UID"@ {
        reveal_strlit("Enter a PID; the daemon resolves and verifies its start time and UID");
        reveal_strlit("输入 PID；守护进程会解析并验证其启动时间和 UID");
    } else if text == "Executable path (optional)"@ {
        reveal_strlit("Executable path (optional)");
        reveal_strlit("可执行文件路径（可选）");
    } else if text == "Follow system language"@ {
        reveal_strlit("Follow system language");
        reveal_strlit("跟随系统语言");
    }
}

proof fn catalog_3_is_left(text: Seq<char>)
    ensures
        catalog_3(text) is Some ==> !in_chinese(text) && (in_chinese(catalog_3(text)->0)
            || catalog_3(text)->0 == text),
{
    if text == "Frequency"@ {
        reveal_strlit("Frequency");
        reveal_strlit("频率");
    } else if text == "Health"@ {
        reveal_strlit("Health");
        reveal_strlit("健康状态");
    } else if text == "Health issues"@ {
        reveal_strlit("Health issues");
        reveal_strlit("健康状态详情");
    } else if text == "Detailed daemon findings, including informational reports"@ {
        reveal_strlit("Detailed daemon findings, including informational reports");
        reveal_strlit("守护进程报告的完整详情，包括提示信息");
    } else if text == "Incompatible API"@ {
        reveal_strlit("Incompatible API");
        reveal_strlit("API 不兼容");
    } else if text == "Invalid request"@ {
        reveal_strlit("Invalid request");
        reveal_strlit("无效请求");
    } else if text == "Language"@ {
        reveal_strlit("Language");
        reveal_strlit("语言");
    } else if text == "Language changes take effect after restarting the application"@ {
        reveal_strlit("Language changes take effect after restarting the application");
        reveal_strlit("语言更改会在重新打开应用后生效");
    } else if text == "Language saved. Restart Uperf Linux to apply it."@ {
        reveal_strlit("Language saved. Restart Uperf Linux to apply it.");
        reveal_strlit("语言设置已保存，重新打开 Uperf Linux 后生效。");
    } else if text == "Lifecycle"@ {
        reveal_strlit("Lifecycle");
        reveal_strlit("生命周期");
    } else if text == "Launch a game, Wine/Proton application, emulator, or Steam process."@ {
        reveal_strlit("Launch a game, Wine/Proton application, emulator, or Steam process.");
        reveal_strlit("请启动游戏、Wine/Proton 应用、模拟器或 Steam 进程。");
    } else if text == "Logs"@ {
        reveal_strlit("Logs");
        reveal_strlit("日志");
    } else if text == "Manual bounds are transactional, read back by the daemon, and constrained by thermal safety"@ {
        reveal_strlit("Manual bounds are transactional, read back by the daemon, and constrained by thermal safety");
        reveal_strlit("手动频率范围以事务方式应用并由守护进程回读，同时受温控安全限制");
    } else if text == "Manual frequency override"@ {
        reveal_strlit("Manual frequency override");
        reveal_strlit("手动频率覆盖");
    } else if text == "Match by executable path, process-name regex, or both"@ {
        reveal_strlit("Match by executable path, process-name regex, or both");
        reveal_strlit("按可执行文件路径、进程名正则表达式或两者共同匹配");
    } else if text == "Maximum frequency"@ {
        reveal_strlit("Maximum frequency");
        reveal_strlit("最高频率");
    } else if text == "Minimum frequency"@ {
        reveal_strlit("Minimum frequency");
        reveal_strlit("最低频率");
    } else if text == "Mode"@ {
        reveal_strlit("Mode");
        reveal_strlit("模式");
    }
}

proof fn catalog_4_is_left(text: Seq<char>)
    ensures
        catalog_4(text) is Some ==> !in_chinese(text) && (in_chinese(catalog_4(text)->0)
            || catalog_4(text)->0 == text),
{
    if text == "Modes are advertised by the running daemon"@ {
        reveal_strlit("Modes are advertised by the running daemon");
        reveal_strlit("模式由正在运行的守护进程提供");
    } else if text == "No active workload"@ {
        reveal_strlit("No active workload");
        reveal_strlit("没有活动工作负载");
    } else if text == "No applied rule"@ {
        reveal_strlit("No applied rule");
        reveal_strlit("没有已应用规则");
    } else if text == "No application rules"@ {
        reveal_strlit("No application rules");
        reveal_strlit("没有应用规则");
    } else if text == "No dedicated unit selected"@ {
        reveal_strlit("No dedicated unit selected");
        reveal_strlit("未选择专用 unit");
    } else if text == "No fresh state"@ {
        reveal_strlit("No fresh state");
        reveal_strlit("没有最新状态");
    } else if text == "No matching processes"@ {
        reveal_strlit("No matching processes");
        reveal_strlit("没有匹配的进程");
    } else if text == "No overridable targets"@ {
        reveal_strlit("No overridable targets");
        reveal_strlit("没有可覆盖的目标");
    } else if text == "None"@ {
        reveal_strlit("None");
        reveal_strlit("无");
    } else if text == "Not authorized"@ {
        reveal_strlit("Not authorized");
        reveal_strlit("未授权");
    } else if text == "Observed state reported by org.uperflinux.Daemon1"@ {
        reveal_strlit("Observed state reported by org.uperflinux.Daemon1");
        reveal_strlit("org.uperflinux.Daemon1 报告的实际状态");
    } else if text == "Pending or no matching scheduler rule"@ {
        reveal_strlit("Pending or no matching scheduler rule");
        reveal_strlit("等待应用或没有匹配的调度规则");
    } else if text == "Per-CPU load reported by daemon telemetry"@ {
        reveal_strlit("Per-CPU load reported by daemon telemetry");
        reveal_strlit("守护进程遥测报告的逐 CPU 负载");
    } else if text == "Persistent global rules that pin a mode for matching processes"@ {
        reveal_strlit("Persistent global rules that pin a mode for matching processes");
        reveal_strlit("为匹配进程固定运行模式的持久全局规则");
    } else if text == "Power mode"@ {
        reveal_strlit("Power mode");
        reveal_strlit("电源模式");
    } else if text == "Press Refresh to load the latest uperf-linux.service journal."@ {
        reveal_strlit("Press Refresh to load the latest uperf-linux.service journal.");
        reveal_strlit("点击“刷新”加载最新的 uperf-linux.service 日志。");
    } else if text == "Process-name regex (optional)"@ {
        reveal_strlit("Process-name regex (optional)");
        reveal_strlit("进程名正则表达式（可选）");
    } else if text == "Refresh"@ {
        reveal_strlit("Refresh");
        reveal_strlit("刷新");
    }
}

proof fn catalog_5_is_left(text: Seq<char>)
    ensures
        catalog_5(text) is Some ==> !in_chinese(text) && (in_chinese(catalog_5(text)->0)
            || catalog_5(text)->0 == text),
{
    if text == "Release all"@ {
        reveal_strlit("Release all");
        reveal_strlit("全部释放");
    } else if text == "Reload"@ {
        reveal_strlit("Reload");
        reveal_strlit("重新加载");
    } else if text == "Remove rule"@ {
        reveal_strlit("Remove rule");
        reveal_strlit("删除规则");
    } else if text == "Request rejected"@ {
        reveal_strlit("Request rejected");
        reveal_strlit("请求被拒绝");
    } else if text == "Rule"@ {
        reveal_strlit("Rule");
        reveal_strlit("规则");
    } else if text == "Safety state is authoritative; manual settings cannot bypass it"@ {
        reveal_strlit("Safety state is authoritative; manual settings cannot bypass it");
        reveal_strlit("安全状态具有最高优先级，手动设置无法绕过");
    } else if text == "Selection"@ {
        reveal_strlit("Selection");
        reveal_strlit("当前选择");
    } else if text == "Service activation was cancelled or denied"@ {
        reveal_strlit("Service activation was cancelled or denied");
        reveal_strlit("服务启用已取消或被拒绝");
    } else if text == "Service journal"@ {
        reveal_strlit("Service journal");
        reveal_strlit("服务日志");
    } else if text == "Service started and enabled for boot"@ {
        reveal_strlit("Service started and enabled for boot");
        reveal_strlit("服务已启动，并设置为开机自动启动");
    } else if text == "Set active workload"@ {
        reveal_strlit("Set active workload");
        reveal_strlit("设置活动工作负载");
    } else if text == "Settings"@ {
        reveal_strlit("Settings");
        reveal_strlit("设置");
    } else if text == "Simplified Chinese"@ {
        reveal_strlit("Simplified Chinese");
        reveal_strlit("简体中文");
    } else if text == "Start at boot and connect the GUI to the privileged daemon"@ {
        reveal_strlit("Start at boot and connect the GUI to the privileged daemon");
        reveal_strlit("设置开机自动启动，并将 GUI 连接到特权守护进程");
    } else if text == "State unavailable · not managed"@ {
        reveal_strlit("State unavailable · not managed");
        reveal_strlit("状态不可用 · 未托管");
    } else if text == "Status"@ {
        reveal_strlit("Status");
        reveal_strlit("状态");
    } else if text == "Source"@ {
        reveal_strlit("Source");
        reveal_strlit("来源");
    } else if text == "System service"@ {
        reveal_strlit("System service");
        reveal_strlit("系统服务");
    }
}

proof fn catalog_6_is_left(text: Seq<char>)
    ensures
        catalog_6(text) is Some ==> !in_chinese(text) && (in_chinese(catalog_6(text)->0)
            || catalog_6(text)->0 == text),
{
    if text == "Systemd cgroup"@ {
        reveal_strlit("Systemd cgroup");
    } else if text == "Task scheduler"@ {
        reveal_strlit("Task scheduler");
        reveal_strlit("任务调度");
    } else if text == "Temperature"@ {
        reveal_strlit("Temperature");
        reveal_strlit("温度");
    } else if text == "Thermal and hardware limits remain authoritative."@ {
        reveal_strlit("Thermal and hardware limits remain authoritative.");
        reveal_strlit("温控与硬件限制仍具有最高优先级。");
    } else if text == "Thermal safety"@ {
        reveal_strlit("Thermal safety");
        reveal_strlit("温控安全");
    } else if text == "Unable to read journal"@ {
        reveal_strlit("Unable to read journal");
        reveal_strlit("无法读取日志");
    } else if text == "Unable to request service activation"@ {
        reveal_strlit("Unable to request service activation");
        reveal_strlit("无法请求启用服务");
    } else if text == "Unable to save the language preference"@ {
        reveal_strlit("Unable to save the language preference");
        reveal_strlit("无法保存语言设置");
    } else if text == "Unable to start journalctl"@ {
        reveal_strlit("Unable to start journalctl");
        reveal_strlit("无法启动 journalctl");
    } else if text == "Unavailable"@ {
        reveal_strlit("Unavailable");
        reveal_strlit("不可用");
    } else if text == "Use"@ {
        reveal_strlit("Use");
        reveal_strlit("使用");
    } else if text == "Workload PID"@ {
        reveal_strlit("Workload PID");
        reveal_strlit("工作负载 PID");
    } else if text == "any process"@ {
        reveal_strlit("any process");
        reveal_strlit("任意进程");
    } else if text == "applied"@ {
        reveal_strlit("applied");
        reveal_strlit("已应用");
    } else if text == "daemon disconnected before the command was sent"@ {
        reveal_strlit("daemon disconnected before the command was sent");
        reveal_strlit("命令发送前守护进程已断开");
    } else if text == "explicit active workload"@ {
        reveal_strlit("explicit active workload");
        reveal_strlit("显式活动工作负载");
    } else if text == "matched"@ {
        reveal_strlit("matched");
        reveal_strlit("匹配");
    } else if text == "ms"@ {
        reveal_strlit("ms");
        reveal_strlit("毫秒");
    }
}

proof fn catalog_7_is_left(text: Seq<char>)
    ensures
        catalog_7(text) is Some ==> !in_chinese(text) && (in_chinese(catalog_7(text)->0)
            || catalog_7(text)->0 == text),
{
    if text == "no dedicated unit"@ {
        reveal_strlit("no dedicated unit");
        reveal_strlit("没有专用 unit");
    } else if text == "not applied"@ {
        reveal_strlit("not applied");
        reveal_strlit("未应用");
    } else if text == "not managed"@ {
        reveal_strlit("not managed");
        reveal_strlit("未托管");
    } else if text == "observed"@ {
        reveal_strlit("observed");
        reveal_strlit("已观测");
    } else if text == "override"@ {
        reveal_strlit("override");
        reveal_strlit("覆盖");
    } else if text == "priority"@ {
        reveal_strlit("priority");
        reveal_strlit("优先级");
    } else if text == "retrying in"@ {
        reveal_strlit("retrying in");
        reveal_strlit("将在以下时间后重试");
    } else if text == "s"@ {
        reveal_strlit("s");
        reveal_strlit("秒");
    } else if text == "safety cap active"@ {
        reveal_strlit("safety cap active");
        reveal_strlit("安全上限已生效");
    } else if text == "sensor data stale"@ {
        reveal_strlit("sensor data stale");
        reveal_strlit("传感器数据已过期");
    } else if text == "stale"@ {
        reveal_strlit("stale");
        reveal_strlit("已过期");
    } else if text == "tasks applied"@ {
        reveal_strlit("tasks applied");
        reveal_strlit("个任务已应用");
    } else if text == "(journal is empty)"@ {
        reveal_strlit("(journal is empty)");
        reveal_strlit("（日志为空）");
    } else if text == "Sensors healthy"@ {
        reveal_strlit("Sensors healthy");
        reveal_strlit("传感器正常");
    }
}

/// Translating a translated text changes nothing more: no translation is itself a
/// key of the catalog, except where it is the text that it stands for.
pub proof fn translating_twice_changes_nothing(language: Language, text: Seq<char>)
    ensures
        translation(language, translation(language, text)) == translation(language, text),
        language == Language::English ==> translation(language, text) == text,
{
    catalog_is_left(text);
    if let Some(s) = catalog(text) {
        catalog_is_left(s);
    }
}

proof fn catalog_is_left(text: Seq<char>)
    ensures
        catalog(text) is Some ==> !in_chinese(text) && (in_chinese(catalog(text)->0)
            || catalog(text)->0 == text),
{
    catalog_1_is_left(text);
    catalog_2_is_left(text);
    catalog_3_is_left(text);
    catalog_4_is_left(text);
    catalog_5_is_left(text);
    catalog_6_is_left(text);
    catalog_7_is_left(text);
}

/// A stored choice is read back.
pub proof fn stored_choice_reads_back(choice: LanguageChoice)
    ensures
        read_choice(stored_choice(choice)) == choice,
{
    reveal_strlit("system");
    reveal_strlit("en");
    reveal_strlit("zh-CN");
    let s = stored_choice(choice);
    assert(s.len() >= 2);
    assert(!crate::text::is_space(s[0]) && !crate::text::is_space(s.last()));
    assert(crate::text::trim_start(s) == s);
    assert(crate::text::trim_end(s) == s);
    assert("system"@.len() == 6 && "en"@.len() == 2 && "zh-CN"@.len() == 5);
}

/// The language in use.
pub fn language(localization: &Localization) -> (r: Language)
    ensures
        r == localization.language,
{
    localization.language
}

/// The choice of the user.
pub fn language_choice(localization: &Localization) -> (r: LanguageChoice)
    ensures
        r == localization.language_choice,
{
    localization.language_choice
}

} // verus!
