# Lists the installed applications as JSON. $companions holds, for each Store
# application with a helper of its own, the package, the file name of the helper
# and the directory below which its versions are installed.
$ErrorActionPreference='SilentlyContinue'
$ProgressPreference='SilentlyContinue'
[Console]::OutputEncoding=[Text.UTF8Encoding]::new($false)
$apps=[System.Collections.Generic.List[object]]::new()
$startNames=@{}
Get-StartApps | ForEach-Object {$startNames[[string]$_.AppID]=[string]$_.Name}

function Add-DesktopApp([string]$name,[string]$path) {
  if ([string]::IsNullOrWhiteSpace($name) -or [string]::IsNullOrWhiteSpace($path)) { return }
  $path=[Environment]::ExpandEnvironmentVariables($path.Trim().Trim('"'))
  if (-not $path.EndsWith('.exe',[StringComparison]::OrdinalIgnoreCase)) { return }
  if (-not (Test-Path -LiteralPath $path -PathType Leaf)) { return }
  $stem=[IO.Path]::GetFileNameWithoutExtension($path)
  if ($stem -match '^(unins\d*|uninstall)$' -or $stem -ieq 'mousevpn-windows-gui') { return }
  if ($name -match '^(Uninstall|Деинсталлировать)\b') { return }
  $desktopPaths=[System.Collections.Generic.List[string]]::new()
  $desktopPaths.Add($path)
  $fileName=[IO.Path]::GetFileName($path)
  $parent=[IO.Path]::GetDirectoryName($path)
  $squirrelRoot=$null
  if (Test-Path -LiteralPath (Join-Path $parent 'Update.exe') -PathType Leaf) {
    $squirrelRoot=$parent
  } elseif ([IO.Path]::GetFileName($parent).StartsWith('app-',[StringComparison]::OrdinalIgnoreCase)) {
    $candidateRoot=[IO.Path]::GetDirectoryName($parent)
    if (Test-Path -LiteralPath (Join-Path $candidateRoot 'Update.exe') -PathType Leaf) {$squirrelRoot=$candidateRoot}
  }
  if ($squirrelRoot) {
    $stable=Join-Path $squirrelRoot $fileName
    if (Test-Path -LiteralPath $stable -PathType Leaf) {$desktopPaths.Add($stable)}
    Get-ChildItem -LiteralPath $squirrelRoot -Directory -Filter 'app-*' | ForEach-Object {
      $versioned=Join-Path $_.FullName $fileName
      if (Test-Path -LiteralPath $versioned -PathType Leaf) {$desktopPaths.Add($versioned)}
    }
  }
  [string[]]$paths=@($desktopPaths | Select-Object -Unique)
  $apps.Add([pscustomobject]@{id=('desktop:'+$path);name=$name;path=$path;paths=$paths;source='desktop';packageName=$null;relativePaths=@()})
}

Get-AppxPackage | Where-Object {-not $_.IsFramework -and $_.InstallLocation} | ForEach-Object {
  $pkg=$_
  $manifest=Get-AppxPackageManifest -Package $pkg.PackageFullName
  foreach($application in @($manifest.Package.Applications.Application)) {
    $exe=[string]$application.Executable
    if (-not $exe -or -not $exe.EndsWith('.exe',[StringComparison]::OrdinalIgnoreCase)) { continue }
    $primary=Join-Path $pkg.InstallLocation $exe
    if (-not (Test-Path -LiteralPath $primary -PathType Leaf)) { continue }
    $aumid="$($pkg.PackageFamilyName)!$($application.Id)"
    $name=$startNames[$aumid]
    if ([string]::IsNullOrWhiteSpace($name) -or $name.StartsWith('ms-resource:')) {$name=[string]$pkg.Name}
    $packageToken=([string]$pkg.Name -split '\.')[-1]
    $primaryStem=[IO.Path]::GetFileNameWithoutExtension($exe)
    $packagePaths=[System.Collections.Generic.List[string]]::new()
    $packagePaths.Add($primary)
    Get-ChildItem -LiteralPath $pkg.InstallLocation -Filter *.exe -File -Recurse | Where-Object {
      $_.BaseName -ieq $primaryStem -or $_.BaseName -ieq $packageToken
    } | ForEach-Object {$packagePaths.Add($_.FullName)}
    [string[]]$packageOnlyPaths=@($packagePaths | Select-Object -Unique)
    [string[]]$relativePaths=@($packageOnlyPaths | ForEach-Object {$_.Substring($pkg.InstallLocation.Length).TrimStart('\')})
    foreach($companion in $companions) {
      if ([string]$pkg.Name -ine $companion.package -and $primaryStem -ine $companion.package) { continue }
      if (-not (Test-Path -LiteralPath $companion.root -PathType Container)) { continue }
      Get-ChildItem -LiteralPath $companion.root -Directory | ForEach-Object {
        $helper=Join-Path $_.FullName $companion.executable
        if (Test-Path -LiteralPath $helper -PathType Leaf) {$packagePaths.Add($helper)}
      }
    }
    [string[]]$paths=@($packagePaths | Select-Object -Unique)
    $apps.Add([pscustomobject]@{id=('store:'+$aumid);name=$name;path=$primary;paths=$paths;source='store';packageName=[string]$pkg.Name;relativePaths=$relativePaths})
  }
}

$shell=New-Object -ComObject WScript.Shell
$startRoots=@([Environment]::GetFolderPath('StartMenu'),[Environment]::GetFolderPath('CommonStartMenu'))
foreach($root in $startRoots) {
  if ([string]::IsNullOrWhiteSpace($root)) { continue }
  Get-ChildItem -LiteralPath $root -Filter *.lnk -File -Recurse | ForEach-Object {
    $shortcut=$shell.CreateShortcut($_.FullName)
    Add-DesktopApp $_.BaseName ([string]$shortcut.TargetPath)
  }
}

$uninstallKeys=@(
  'HKCU:\Software\Microsoft\Windows\CurrentVersion\Uninstall\*',
  'HKLM:\Software\Microsoft\Windows\CurrentVersion\Uninstall\*',
  'HKLM:\Software\WOW6432Node\Microsoft\Windows\CurrentVersion\Uninstall\*'
)
Get-ItemProperty $uninstallKeys | ForEach-Object {
  $icon=[Environment]::ExpandEnvironmentVariables(([string]$_.DisplayIcon).Trim().Trim('"'))
  if ($icon -match '^(.*?\.exe)(?:,\s*-?\d+)?$') { Add-DesktopApp ([string]$_.DisplayName) $Matches[1] }
}

ConvertTo-Json -InputObject @($apps) -Depth 4 -Compress
