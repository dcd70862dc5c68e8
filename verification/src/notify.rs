//! Notifications about new messages.
use vstd::prelude::*;

use crate::text::{decimal, join3, u64_to_string};

verus! {

/// The part of the script that is the same for every notification: it shows the window, and its exit
/// code tells what the user has clicked on.
pub const MAIL_NOTIF_BODY: &'static str = r##"
[xml]$xaml = '<Window xmlns="http://schemas.microsoft.com/winfx/2006/xaml/presentation" WindowStyle="None" AllowsTransparency="True" Background="Transparent" Topmost="True" ShowInTaskbar="False" Width="340" Height="90" ResizeMode="NoResize"><Border Background="#FF1A1B2E" BorderBrush="#FF6366F1" BorderThickness="1" CornerRadius="8" Name="MainBorder"><Grid Margin="10,8"><Grid.ColumnDefinitions><ColumnDefinition Width="40"/><ColumnDefinition Width="*"/><ColumnDefinition Width="44"/></Grid.ColumnDefinitions><Border Grid.Column="0" Width="32" Height="32" CornerRadius="16" Background="#FF6366F1" VerticalAlignment="Center"><TextBlock Foreground="White" FontSize="16" FontWeight="Bold" HorizontalAlignment="Center" VerticalAlignment="Center" Name="AvatarText"/></Border><StackPanel Grid.Column="1" Margin="8,0,0,0" VerticalAlignment="Center"><TextBlock Foreground="#FF9999BB" FontSize="11" Name="TitleBlock"/><TextBlock Foreground="White" FontWeight="SemiBold" FontSize="13" TextTrimming="CharacterEllipsis" Name="SenderBlock"/><TextBlock Foreground="#FFCCCCCC" FontSize="12" TextTrimming="CharacterEllipsis" Name="MsgBlock"/></StackPanel><StackPanel Grid.Column="2" VerticalAlignment="Top" HorizontalAlignment="Center" Margin="0,2,0,0"><TextBlock Text="&#215;" Foreground="#FF666666" FontSize="16" HorizontalAlignment="Center" Cursor="Hand" Name="CloseBtn"/><TextBlock Text="&#9881;" Foreground="#FF666666" FontSize="13" HorizontalAlignment="Center" Cursor="Hand" Margin="0,4,0,0" Name="SettingsBtn"/></StackPanel></Grid></Border></Window>'
$reader = New-Object System.Xml.XmlNodeReader $xaml
$window = [Windows.Markup.XamlReader]::Load($reader)
$window.FindName('TitleBlock').Text = 'ДокВис Почта · ' + (Get-Date).ToString('HH:mm')
$window.FindName('SenderBlock').Text = $fromName
$window.FindName('MsgBlock').Text = $subject
if ($fromName.Length -gt 0) {
    $window.FindName('AvatarText').Text = $fromName.Substring(0, 1).ToUpper()
}

# Позиция: правый нижний угол, стекинг вверх
$screen = [System.Windows.SystemParameters]::WorkArea
$window.Left = $screen.Right - 352
$window.Top = $screen.Bottom - 95 - ($stackIndex * 98)

# Клик по телу → открыть письмо
$global:clicked = $false
$global:settingsClicked = $false
$window.FindName('MainBorder').Add_MouseLeftButtonDown({
    if (-not $global:settingsClicked) { $global:clicked = $true; $window.Close() }
})

# Кнопка закрытия ×
$closeBtn = $window.FindName('CloseBtn')
$closeBtn.Add_MouseLeftButtonDown({ param($s,$e) $e.Handled = $true; $window.Close() })
$closeBtn.Add_MouseEnter({ $closeBtn.Foreground = [System.Windows.Media.Brushes]::White })
$defColor = New-Object System.Windows.Media.SolidColorBrush ([System.Windows.Media.Color]::FromRgb(0x66,0x66,0x66))
$closeBtn.Add_MouseLeave({ $closeBtn.Foreground = $defColor })

# Кнопка настроек ⚙
$settingsBtn = $window.FindName('SettingsBtn')
$settingsBtn.Add_MouseLeftButtonDown({ param($s,$e) $e.Handled = $true; $global:settingsClicked = $true; $window.Close() })
$settingsBtn.Add_MouseEnter({ $settingsBtn.Foreground = [System.Windows.Media.Brushes]::White })
$settingsBtn.Add_MouseLeave({ $settingsBtn.Foreground = $defColor })

# Автозакрытие (если $notifDuration = 0 — не скрывать автоматически)
if ($notifDuration -gt 0) {
    $timer = New-Object System.Windows.Threading.DispatcherTimer
    $timer.Interval = [TimeSpan]::FromSeconds($notifDuration)
    $timer.Add_Tick({ $timer.Stop(); $window.Close() })
    $timer.Start()
}

$window.ShowDialog() | Out-Null
if ($global:settingsClicked) { exit 2 } elseif ($global:clicked) { exit 1 } else { exit 0 }
"##;

/// The script that shows the notification at a place in the stack for so many seconds. Sender and
/// subject are not part of it: it takes them from the environment.
pub open spec fn script(stack_index: nat, duration: nat) -> Seq<char> {
    "Add-Type -AssemblyName PresentationFramework\n"@
        + "Add-Type -AssemblyName PresentationCore\n"@ + "$fromName = $env:NOTIF_FROM\n"@
        + "$subject  = $env:NOTIF_SUBJECT\n"@ + "$stackIndex = "@ + decimal(stack_index) + "\n"@
        + "$notifDuration = "@ + decimal(duration) + "\n"@ + MAIL_NOTIF_BODY@
}

/// How many seconds a notification is shown, 0 if until the user closes it.
pub open spec fn seconds_shown(duration_secs: Option<u32>) -> nat {
    match duration_secs {
        Some(n) => n as nat,
        None => 5,
    }
}

/// Writes the script that shows a notification.
pub fn show_mail_notification(stack_index: u32, duration_secs: Option<u32>) -> (r: String)
    ensures
        r@ == script(stack_index as nat, seconds_shown(duration_secs)),
{
    let duration: u32 = match duration_secs {
        Some(n) => n,
        None => 5,
    };
    let mut s = String::new();
    let ghost empty = s@;
    s.append("Add-Type -AssemblyName PresentationFramework\n");
    assert(s@ =~= "Add-Type -AssemblyName PresentationFramework\n"@);
    s.append("Add-Type -AssemblyName PresentationCore\n");
    s.append("$fromName = $env:NOTIF_FROM\n");
    s.append("$subject  = $env:NOTIF_SUBJECT\n");
    s.append("$stackIndex = ");
    s.append(u64_to_string(stack_index as u64).as_str());
    s.append("\n");
    s.append("$notifDuration = ");
    s.append(u64_to_string(duration as u64).as_str());
    s.append("\n");
    s.append(MAIL_NOTIF_BODY);
    s
}

/// The name of the file that holds the script.
pub fn script_name(stack_index: u32) -> (r: String)
    ensures
        r@ == "docvis_mail_notif_"@ + decimal(stack_index as nat) + ".ps1"@,
{
    join3("docvis_mail_notif_", u64_to_string(stack_index as u64).as_str(), ".ps1")
}

/// What the user has clicked on.
#[derive(Clone, Copy, PartialEq, Eq, Structural)]
pub enum Clicked {
    /// The notification: the message is shown.
    Message,
    /// The settings: the settings of notifications are shown.
    Settings,
    /// Nothing, or the button that closes it.
    Nothing,
}

/// What the user has clicked on, given how the script ended.
pub open spec fn clicked(code: Option<i32>) -> Clicked {
    match code {
        Some(c) => if c == 1 {
            Clicked::Message
        } else if c == 2 {
            Clicked::Settings
        } else {
            Clicked::Nothing
        },
        None => Clicked::Nothing,
    }
}

/// `clicked`, computed.
pub fn notification_clicked(code: Option<i32>) -> (r: Clicked)
    ensures
        r == clicked(code),
{
    match code {
        Some(c) => if c == 1 {
            Clicked::Message
        } else if c == 2 {
            Clicked::Settings
        } else {
            Clicked::Nothing
        },
        None => Clicked::Nothing,
    }
}

} // verus!
